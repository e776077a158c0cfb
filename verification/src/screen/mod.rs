//! Screens: the contract, the runtime that drives one, and the root views
//! that own a whole screen's chrome.
use vstd::prelude::*;

use crate::geometry::{fits_i32, Point, Rect, Size};
use crate::host::{DrawOp, 
    coord, extent, point_in_range, size_in_range, Button,
    Renderer, Theme,
};
use crate::view::{
    count_focusable, rects_fit, spec_value_at, Env, InputMask, Interaction,
    MakeMessage,
    Interactions, Trigger, Widget,
};

pub mod navigation;
pub mod overlay;

verus! {

/// Fire once on press, then repeat after this hold, at this interval.
pub const REPEAT_DELAY_MS: u32 = 500;

pub const REPEAT_INTERVAL_MS: u32 = 500;

/// The buttons the runtime offers a screen, in the order it asks about them.
pub open spec fn key_order() -> Seq<Button> {
    seq![
        Button::Left,
        Button::Right,
        Button::Up,
        Button::Down,
        Button::Confirm,
        Button::Back,
        Button::PageBack,
        Button::PageForward,
    ]
}

fn key_at(index: usize) -> (b: Button)
    requires
        index < 8,
    ensures
        b == key_order()[index as int],
{
    match index {
        0 => Button::Left,
        1 => Button::Right,
        2 => Button::Up,
        3 => Button::Down,
        4 => Button::Confirm,
        5 => Button::Back,
        6 => Button::PageBack,
        _ => Button::PageForward,
    }
}

/// This frame's input, as the host reports it. Every answer may differ from
/// call to call: the runtime is correct for whatever comes back.
pub trait InputSource {
    /// Whether `button` went down since the last frame.
    fn was_pressed(&self, button: Button) -> bool;

    /// Whether `button` is down now.
    fn is_pressed(&self, button: Button) -> bool;

    fn has_touch(&self) -> bool;

    /// Where a tap landed this frame, if one did.
    fn tap(&self) -> Option<Point>;

    /// Where the finger is, while one is down.
    fn touch_held(&self) -> Option<Point>;

    /// Whether the finger lifted this frame.
    fn touch_released(&self) -> bool;

    /// Milliseconds since boot.
    fn millis(&self) -> u32;
}

/// What a frame asks of the host once it is done: a repaint, and whether the
/// screen is to be popped.
#[derive(Copy, Clone, Debug, PartialEq, Eq, Structural)]
pub struct Requests {
    pub update: bool,
    pub finish: bool,
}

impl Requests {
    /// Nothing asked yet.
    pub fn new() -> (r: Requests)
        ensures
            !r.update,
            !r.finish,
    {
        Requests { update: false, finish: false }
    }
}

/// Pops the current screen.
pub fn finish_screen(requests: &mut Requests)
    ensures
        final(requests).finish,
        final(requests).update == old(requests).update,
{
    requests.finish = true;
}

/// Asks for a repaint. E-ink does not refresh on its own.
pub fn request_update(requests: &mut Requests)
    ensures
        final(requests).update,
        final(requests).finish == old(requests).finish,
{
    requests.update = true;
}

/// A screen.
///
/// `body` describes it, `update` applies a message — the only place its state
/// changes. The runtime repaints after every message, so no screen asks for a
/// repaint itself.
pub trait Screen {
    /// What this screen's controls send back.
    type Message: Clone;

    /// The root of what `body` builds.
    type Body: Widget<Self::Message>;

    /// Describes the screen. A pure function of `self` — no device writes.
    fn body(&self, env: &Env) -> (view: Self::Body);

    /// Applies a message.
    fn update(&mut self, message: Self::Message, requests: &mut Requests);

    /// A key the runtime has not claimed, offered before it applies its own
    /// meaning. Return a message to consume it. Consulted **first**, so a
    /// screen that wants Up/Down for something other than moving focus simply
    /// says so.
    fn on_key(&self, key: Button) -> (m: Option<Self::Message>)
        default_ensures
            m is None,
    {
        None
    }

    /// A touch that no control claimed. Return a message to consume it.
    fn on_background_tap(&self, point: Point) -> (m: Option<Self::Message>)
        default_ensures
            m is None,
    {
        None
    }

    /// Whether this screen paints over what is already on the panel, leaving
    /// it visible beneath.
    fn is_overlay(&self) -> (b: bool)
        default_ensures
            !b,
    {
        false
    }

    fn on_enter(&mut self) {
    }

    fn on_exit(&mut self) {
    }

    /// The system home gesture. Return `true` to consume it; an overlay does,
    /// so the gesture dismisses the overlay rather than the screen below.
    fn handle_home_gesture(&mut self, requests: &mut Requests) -> (consumed: bool)
        default_ensures
            !consumed,
            *final(requests) == *old(requests),
    {
        false
    }
}

/// Key auto-repeat state: which button is held, when its press started, and
/// when it last fired.
#[derive(Copy, Clone, Debug, PartialEq, Eq, Structural)]
pub struct Repeat {
    pub button: Option<Button>,
    pub pressed_at: u32,
    pub fired_at: u32,
}

/// Milliseconds from `from` to `now` on a clock that wraps.
pub open spec fn elapsed(now: u32, from: u32) -> u32 {
    vstd::wrapping::u32_specs::wrapping_sub(now, from)
}

/// Which button acts this frame, and the repeat state after it: a fresh press
/// fires at once and restarts the timing; a held button fires again only
/// after the initial delay and then once per interval; a released one stops.
pub open spec fn spec_next_key(repeat: Repeat, pressed: Option<Button>, held_down: bool, now: u32) -> (
    Repeat,
    Option<Button>,
) {
    match pressed {
        Some(key) => (Repeat { button: Some(key), pressed_at: now, fired_at: now }, Some(key)),
        None => match repeat.button {
            None => (repeat, None),
            Some(held) => if !held_down {
                (Repeat { button: None, ..repeat }, None)
            } else if elapsed(now, repeat.pressed_at) < REPEAT_DELAY_MS {
                (repeat, None)
            } else if elapsed(now, repeat.fired_at) < REPEAT_INTERVAL_MS {
                (repeat, None)
            } else {
                (Repeat { fired_at: now, ..repeat }, Some(held))
            },
        },
    }
}

/// Decides which button acts this frame from what the host reported: the
/// first button pressed this frame, whether the repeating one is still down,
/// and the time.
pub fn next_key(repeat: Repeat, pressed: Option<Button>, held_down: bool, now: u32) -> (r: (
    Repeat,
    Option<Button>,
))
    ensures
        r == spec_next_key(repeat, pressed, held_down, now),
{
    match pressed {
        Some(key) => (Repeat { button: Some(key), pressed_at: now, fired_at: now }, Some(key)),
        None => match repeat.button {
            None => (repeat, None),
            Some(held) => {
                if !held_down {
                    (Repeat { button: None, pressed_at: repeat.pressed_at, fired_at: repeat.fired_at }, None)
                } else if now.wrapping_sub(repeat.pressed_at) < REPEAT_DELAY_MS {
                    (repeat, None)
                } else if now.wrapping_sub(repeat.fired_at) < REPEAT_INTERVAL_MS {
                    (repeat, None)
                } else {
                    (Repeat { button: repeat.button, pressed_at: repeat.pressed_at, fired_at: now }, Some(held))
                }
            },
        },
    }
}

/// A held button never fires faster than the repeat interval: two repeats in
/// a row, with no fresh press between them, are at least an interval apart.
pub proof fn lemma_repeat_spacing(r0: Repeat, t1: u32, t2: u32)
    requires
        spec_next_key(r0, None, true, t1).1 is Some,
        spec_next_key(spec_next_key(r0, None, true, t1).0, None, true, t2).1 is Some,
    ensures
        elapsed(t2, t1) >= REPEAT_INTERVAL_MS,
{
}

/// A repeat only ever fires the button being held, and only once the initial
/// delay has passed since its press.
pub proof fn lemma_repeat_is_held_button(r: Repeat, held_down: bool, now: u32)
    requires
        spec_next_key(r, None, held_down, now).1 is Some,
    ensures
        held_down,
        spec_next_key(r, None, held_down, now).1 == r.button,
        elapsed(now, r.pressed_at) >= REPEAT_DELAY_MS,
{
}

/// Letting go stops the repeat: nothing fires until the next press.
pub proof fn lemma_release_stops(r: Repeat, now: u32, later: u32, held_later: bool)
    ensures
        spec_next_key(r, None, false, now).1 is None,
        spec_next_key(spec_next_key(r, None, false, now).0, None, held_later, later).1 is None,
{
}

/// Where focus goes when moved by `delta` among `count` stops, wrapping at
/// both ends.
pub open spec fn spec_moved_focus(focus: int, delta: int, count: int) -> int {
    (focus + delta) % count
}

/// Moving focus forward then back returns to where it started.
pub proof fn lemma_move_round_trip(focus: int, count: int)
    requires
        count > 0,
        0 <= focus < count,
    ensures
        spec_moved_focus(spec_moved_focus(focus, 1, count), -1, count) == focus,
        spec_moved_focus(spec_moved_focus(focus, -1, count), 1, count) == focus,
        0 <= spec_moved_focus(focus, 1, count) < count,
        0 <= spec_moved_focus(focus, -1, count) < count,
{
    if focus + 1 == count {
        assert((focus + 1) % count == 0) by {
            vstd::arithmetic::div_mod::lemma_mod_self_0(count);
        }
    } else {
        assert((focus + 1) % count == focus + 1) by {
            vstd::arithmetic::div_mod::lemma_small_mod((focus + 1) as nat, count as nat);
        }
    }
    if focus == 0 {
        assert((focus - 1) % count == count - 1) by {
            vstd::arithmetic::div_mod::lemma_fundamental_div_mod_converse(-1, count, -1, count - 1);
        }
        assert((count - 1 + 1) % count == 0) by {
            vstd::arithmetic::div_mod::lemma_mod_self_0(count);
        }
    } else {
        assert((focus - 1) % count == focus - 1) by {
            vstd::arithmetic::div_mod::lemma_small_mod((focus - 1) as nat, count as nat);
        }
        assert((focus - 1 + 1) % count == focus) by {
            vstd::arithmetic::div_mod::lemma_small_mod(focus as nat, count as nat);
        }
    }
    if focus + 1 < count {
        assert((focus + 1 - 1) % count == focus) by {
            vstd::arithmetic::div_mod::lemma_small_mod(focus as nat, count as nat);
        }
    } else {
        assert((0 - 1) % count == count - 1) by {
            vstd::arithmetic::div_mod::lemma_fundamental_div_mod_converse(-1, count, -1, count - 1);
        }
    }
}

/// The index of the last item — the innermost control — whose mask accepts
/// `kind` and whose rect contains `point`.
pub open spec fn last_hit<M>(items: Seq<Interaction<M>>, point: Point, kind: InputMask) -> Option<int>
    decreases items.len(),
{
    if items.len() == 0 {
        None
    } else if items.last().mask.has(kind) && items.last().rect.spec_contains(point) {
        Some(items.len() - 1)
    } else {
        last_hit(items.drop_last(), point, kind)
    }
}

/// A hit is an item that accepts the input and lies under the point, and no
/// item declared after it does both: the innermost control wins, whatever
/// was declared before it. A point that nothing accepting the input covers
/// hits nothing.
pub proof fn lemma_last_hit_is_innermost<M>(items: Seq<Interaction<M>>, point: Point, kind: InputMask)
    ensures
        last_hit(items, point, kind) matches Some(i) ==> {
            &&& 0 <= i < items.len()
            &&& items[i].mask.has(kind)
            &&& items[i].rect.spec_contains(point)
            &&& forall|j: int|
                i < j < items.len() ==> !(#[trigger] items[j].mask.has(kind) && items[j].rect.spec_contains(
                    point,
                ))
        },
        last_hit(items, point, kind) is None ==> forall|j: int|
            0 <= j < items.len() ==> !(#[trigger] items[j].mask.has(kind) && items[j].rect.spec_contains(
                point,
            )),
    decreases items.len(),
{
    if items.len() > 0 {
        let front = items.drop_last();
        lemma_last_hit_is_innermost(front, point, kind);
        assert forall|j: int| 0 <= j < items.len() - 1 implies front[j] == items[j] by {}
        if items.last().mask.has(kind) && items.last().rect.spec_contains(point) {
            assert(last_hit(items, point, kind) == Some(items.len() - 1));
        } else {
            assert(last_hit(items, point, kind) == last_hit(front, point, kind));
            let n = items.len() - 1;
            assert(!(items[n].mask.has(kind) && items[n].rect.spec_contains(point)));
            if let Some(i) = last_hit(front, point, kind) {
                assert forall|j: int| i < j < items.len() implies !(#[trigger] items[j].mask.has(kind)
                    && items[j].rect.spec_contains(point)) by {
                    if j < n {
                        assert(front[j] == items[j]);
                        assert(!(front[j].mask.has(kind) && front[j].rect.spec_contains(point)));
                    }
                }
            } else {
                assert forall|j: int| 0 <= j < items.len() implies !(#[trigger] items[j].mask.has(kind)
                    && items[j].rect.spec_contains(point)) by {
                    if j < n {
                        assert(front[j] == items[j]);
                        assert(!(front[j].mask.has(kind) && front[j].rect.spec_contains(point)));
                    }
                }
            }
        }
    }
}

/// Only an item that accepts drags is ever offered a held touch: a finger
/// resting on a button never re-fires it.
pub proof fn lemma_held_touch_reaches_only_drag_controls<M>(items: Seq<Interaction<M>>, point: Point)
    ensures
        last_hit(items, point, InputMask(4)) matches Some(i) ==> items[i].mask.has(InputMask(4)),
{
    lemma_last_hit_is_innermost(items, point, InputMask(4));
}

/// Where a message control is touched makes no difference, and Confirm sends
/// the same: every way of firing it sends a copy of its one message.
pub proof fn lemma_tap_and_confirm_agree<M: Clone>(
    message: M,
    rect: Rect,
    x: int,
    other_rect: Rect,
    other_x: int,
    theme: Theme,
    sent: M,
)
    ensures
        resolves_to(Trigger::Message(message), rect, x, theme, sent) == cloned(message, sent),
        resolves_to(Trigger::Message(message), rect, x, theme, sent) == resolves_to(
            Trigger::Message(message),
            other_rect,
            other_x,
            theme,
            sent,
        ),
{
}

/// The index of the `n`th focusable item, counting in tree order from zero.
pub open spec fn nth_focusable_index<M>(items: Seq<Interaction<M>>, n: int) -> Option<int>
    decreases items.len(),
{
    if items.len() == 0 {
        None
    } else if items[0].mask.has(InputMask(2)) {
        if n == 0 {
            Some(0)
        } else {
            match nth_focusable_index(items.drop_first(), n - 1) {
                Some(i) => Some(i + 1),
                None => None,
            }
        }
    } else {
        match nth_focusable_index(items.drop_first(), n) {
            Some(i) => Some(i + 1),
            None => None,
        }
    }
}

/// `message` is what `trigger`, declared over `rect`, sends for a touch at `x`.
pub open spec fn resolves_to<M: Clone>(trigger: Trigger<M>, rect: Rect, x: int, theme: Theme, message: M) -> bool {
    match trigger {
        Trigger::Message(m) => cloned(m, message),
        Trigger::Value { make, max } => (&**make).makes(spec_value_at(rect, x, max as int, theme) as i32, message),
        Trigger::Step { make } => (&**make).makes(0, message),
    }
}


/// The message a touch at `point` produces: the innermost control accepting
/// `kind` under the point, scanning back to front. A touch on nothing
/// interactive produces nothing, rather than the nearest control.
pub fn resolve<M: Clone>(interactions: &Interactions<M>, point: Point, kind: InputMask, theme: &Theme) -> (r: Option<M>)
    requires
        interactions.wf(),
        theme.wf(),
    ensures
        last_hit(interactions.spec_items(), point, kind) matches Some(i) ==> {
            let item = interactions.spec_items()[i];
            &&& r matches Some(m) && resolves_to(item.trigger, item.rect, point.x as int, *theme, m)
        },
        last_hit(interactions.spec_items(), point, kind) is None ==> r is None,
{
    let items = interactions.items();
    let mut i = items.len();
    assert(items@.take(i as int) =~= items@);
    while i > 0
        invariant
            theme.wf(),
            0 <= i <= items@.len(),
            items@ == interactions.spec_items(),
            rects_fit(items@),
            last_hit(items@, point, kind) == last_hit(items@.take(i as int), point, kind),
        decreases i,
    {
        let ghost prefix = items@.take(i as int);
        assert(prefix.drop_last() =~= items@.take(i - 1));
        assert(prefix.last() == items@[i - 1]);
        i = i - 1;
        let item = &items[i];
        assert(items@[i as int].rect.edges_fit());
        if item.mask.contains(kind) && item.rect.contains(point) {
            return Some(item.trigger.resolve(item.rect, point.x, theme));
        }
    }
    assert(items@.take(0).len() == 0);
    None
}

/// Finds the item holding focus: the `focus`th focusable one.
fn focused_item<M>(items: &[Interaction<M>], focus: usize) -> (r: Option<usize>)
    ensures
        r matches Some(i) ==> nth_focusable_index(items@, focus as int) == Some(i as int) && i
            < items@.len(),
        r is None ==> nth_focusable_index(items@, focus as int) is None,
{
    let mut i: usize = 0;
    let mut remaining: usize = focus;
    assert(items@.skip(0) =~= items@);
    while i < items.len()
        invariant
            0 <= i <= items@.len(),
            remaining <= focus,
            nth_focusable_index(items@, focus as int) == match nth_focusable_index(
                items@.skip(i as int),
                remaining as int,
            ) {
                Some(k) => Some(k + i),
                None => None,
            },
        decreases items@.len() - i,
    {
        proof {
            let tail = items@.skip(i as int);
            assert(tail.drop_first() =~= items@.skip(i + 1));
            assert(tail[0] == items@[i as int]);
        }
        if items[i].mask.contains(InputMask::focus()) {
            if remaining == 0 {
                return Some(i);
            }
            remaining = remaining - 1;
        }
        i = i + 1;
    }
    assert(items@.skip(i as int).len() == 0);
    None
}

/// The message Confirm sends: the focused control's own message. A value or
/// step control has no absolute reading to confirm, so it sends nothing.
pub fn focused_message<M: Clone>(interactions: &Interactions<M>, focus: usize) -> (r: Option<M>)
    ensures
        nth_focusable_index(interactions.spec_items(), focus as int) matches Some(i) ==> match interactions.spec_items()[i].trigger {
            Trigger::Message(m) => r matches Some(sent) && cloned(m, sent),
            _ => r is None,
        },
        nth_focusable_index(interactions.spec_items(), focus as int) is None ==> r is None,
{
    let items = interactions.items();
    match focused_item(items, focus) {
        Some(i) => match &items[i].trigger {
            Trigger::Message(message) => Some(message.clone()),
            _ => None,
        },
        None => None,
    }
}

/// The message Left/Right send: a nudge to the focused control, when it
/// accepts adjustment.
pub fn focused_step<M: Clone>(interactions: &Interactions<M>, focus: usize, delta: i32) -> (r: Option<M>)
    ensures
        nth_focusable_index(interactions.spec_items(), focus as int) matches Some(i) ==> {
            let item = interactions.spec_items()[i];
            &&& item.mask.has(InputMask(16)) ==> match item.trigger {
                Trigger::Step { make } => r matches Some(m) && (&**make).makes(delta, m),
                _ => r is None,
            }
            &&& !item.mask.has(InputMask(16)) ==> r is None
        },
        nth_focusable_index(interactions.spec_items(), focus as int) is None ==> r is None,
{
    let items = interactions.items();
    match focused_item(items, focus) {
        Some(i) => {
            if items[i].mask.contains(InputMask::adjust()) {
                items[i].trigger.resolve_step(delta)
            } else {
                None
            }
        },
        None => None,
    }
}

/// Focus either stays, or moves one stop — up for Up, down for Down —
/// wrapping among some positive number of stops.
pub open spec fn moved_by_one(focus: usize, after: usize, key: Button) -> bool {
    after == focus || exists|count: int|
        count > 0 && after == #[trigger] spec_moved_focus(focus as int, key_delta(key), count)
}

/// Which way Left/Right nudge a control: down for Left, up otherwise.
pub open spec fn nudge(key: Button) -> i32 {
    if key == Button::Left {
        -1i32
    } else {
        1i32
    }
}

/// Which way a focus key moves: up for Up, down otherwise.
pub open spec fn key_delta(key: Button) -> int {
    if key == Button::Up {
        -1
    } else {
        1
    }
}

/// What a key does to a screen with focus at `focus`: when the screen claims
/// it, its message is applied and a repaint requested; otherwise Back pops
/// the screen, Up/Down move focus (repainting when it moved), Confirm applies
/// the focused control's message and Left/Right its nudge — doing nothing
/// when it has none — and the page keys do nothing.
pub open spec fn key_effect<S: Screen>(
    screen: S,
    focus: usize,
    env: &Env,
    before: Requests,
    key: Button,
    screen_after: S,
    focus_after: usize,
    after: Requests,
) -> bool {
    exists|claimed: Option<S::Message>|
        #[trigger] call_ensures(S::on_key, (&screen, key), claimed) && match claimed {
            Some(_) => focus_after == focus && after.update,
            None => match key {
                Button::Back => screen_after == screen && focus_after == focus && after == (Requests {
                    finish: true,
                    update: before.update,
                }),
                Button::Up | Button::Down => {
                    &&& screen_after == screen
                    &&& after.finish == before.finish
                    &&& moved_by_one(focus, focus_after, key)
                    &&& focus_after != focus ==> after.update
                    &&& focus_after == focus ==> after.update == before.update
                },
                Button::Confirm | Button::Left | Button::Right => exists|collected: Interactions<S::Message>|
                    #[trigger] call_ensures(collect_tree::<S>, (&screen, focus, env), collected)
                        && focus_after == focus && if (key == Button::Confirm && focused_sends(
                        collected,
                        focus,
                    )) || (key != Button::Confirm && focused_steps(collected, focus)) {
                        after.update
                    } else {
                        screen_after == screen && after == before
                    },
                _ => screen_after == screen && focus_after == focus && after == before,
            },
        }
}

/// The message the innermost control accepting `kind` under `point` produces
/// among what `screen`'s tree declares with focus at `focus`, or `None` when
/// no such control is under the point: `hit` says which.
pub open spec fn touch_hits<S: Screen>(
    screen: S,
    focus: usize,
    env: &Env,
    point: Point,
    kind: InputMask,
    hit: Option<S::Message>,
) -> bool {
    exists|collected: Interactions<S::Message>|
        #[trigger] call_ensures(collect_tree::<S>, (&screen, focus, env), collected) && match last_hit(
            collected.spec_items(),
            point,
            kind,
        ) {
            Some(i) => hit matches Some(m) && resolves_to(
                collected.spec_items()[i].trigger,
                collected.spec_items()[i].rect,
                point.x as int,
                env.theme,
                m,
            ),
            None => hit is None,
        }
}

/// How a touch the runtime took was routed, as `input` reported it: a held
/// finger over a drag control sends that control's message (`drag`);
/// otherwise a release ending a drag in progress is swallowed (`message` is
/// `None`); otherwise a tap sends the message of the innermost tap control
/// under it or, with none there, the message the screen's background gives.
pub open spec fn touch_outcome<S: Screen, I: InputSource>(
    input: &I,
    screen: S,
    focus: usize,
    dragging: bool,
    env: &Env,
    drag: bool,
    message: Option<S::Message>,
) -> bool {
    exists|held: Option<Point>|
        #[trigger] call_ensures(I::touch_held, (input,), held) && {
            ||| (held matches Some(p) && drag && message is Some && touch_hits(
                screen,
                focus,
                env,
                p,
                InputMask(4),
                message,
            ))
            ||| ((held matches Some(p) ==> touch_hits(screen, focus, env, p, InputMask(4), None)) && !drag
                && exists|released: bool|
                #[trigger] call_ensures(I::touch_released, (input,), released) && {
                    ||| (released && dragging && message is None)
                    ||| (!(released && dragging) && exists|tapped: Option<Point>|
                        #[trigger] call_ensures(I::tap, (input,), tapped) && (tapped matches Some(p)
                            && message is Some && {
                            ||| touch_hits(screen, focus, env, p, InputMask(1), message)
                            ||| (touch_hits(screen, focus, env, p, InputMask(1), None) && call_ensures(
                                S::on_background_tap,
                                (&screen, p),
                                message,
                            ))
                        }))
                })
        }
}

/// The key part of a frame with the buttons reading `pressed`, `held_down`
/// at `now`: the repeat state advances, and the key that acts, if any, has
/// its effect.
pub open spec fn key_step<S: Screen>(
    env: &Env,
    before: Runtime<S>,
    after: Runtime<S>,
    requests_before: Requests,
    requests_after: Requests,
    pressed: Option<Button>,
    held_down: bool,
    now: u32,
) -> bool {
    let (repeat, key) = spec_next_key(before.spec_repeat(), pressed, held_down, now);
    &&& after.spec_repeat() == repeat
    &&& after.spec_painted() == before.spec_painted()
    &&& after.spec_dragging() == before.spec_dragging()
    &&& match key {
        None => after.spec_screen() == before.spec_screen() && after.spec_focus() == before.spec_focus()
            && requests_after == requests_before,
        Some(k) => key_effect(
            before.spec_screen(),
            before.spec_focus(),
            env,
            requests_before,
            k,
            after.spec_screen(),
            after.spec_focus(),
            requests_after,
        ),
    }
}

/// What the buttons read this frame, as `input` reported it: `now` is the
/// clock; `pressed` is the first button in `key_order` that reported a press,
/// every one before it having reported none (`None` when none did); and
/// `held_down` is whether the repeating button still reported down — asked
/// only when nothing was pressed and a button is repeating.
pub open spec fn key_readings<I: InputSource>(
    input: &I,
    repeat: Repeat,
    pressed: Option<Button>,
    held_down: bool,
    now: u32,
) -> bool {
    &&& call_ensures(I::millis, (input,), now)
    &&& match pressed {
        Some(key) => exists|i: int|
            0 <= i < 8 && key_order()[i] == key && #[trigger] call_ensures(
                I::was_pressed,
                (input, key_order()[i]),
                true,
            ) && forall|j: int|
                0 <= j < i ==> #[trigger] call_ensures(I::was_pressed, (input, key_order()[j]), false),
        None => forall|j: int|
            0 <= j < 8 ==> #[trigger] call_ensures(I::was_pressed, (input, key_order()[j]), false),
    }
    &&& match (pressed, repeat.button) {
        (None, Some(held)) => call_ensures(I::is_pressed, (input, held), held_down),
        _ => !held_down,
    }
}

/// What the touch readings were in a frame whose touch the runtime did not
/// take: no drag target under a held finger was reported to act, no release
/// ended a drag in progress, and a tap that no control took was refused by the
/// screen's background.
pub open spec fn touch_refused<S: Screen, I: InputSource>(input: &I, screen: S, dragging: bool) -> bool {
    exists|held: Option<Point>, released: bool, tapped: Option<Point>|
        #![trigger call_ensures(I::touch_held, (input,), held), call_ensures(I::touch_released, (input,), released), call_ensures(I::tap, (input,), tapped)]
        call_ensures(I::touch_held, (input,), held) && call_ensures(I::touch_released, (input,), released)
            && call_ensures(I::tap, (input,), tapped) && !(released && dragging) && (tapped matches Some(
            p,
        ) ==> exists|background: Option<S::Message>|
            #[trigger] call_ensures(S::on_background_tap, (&screen, p), background) && background is None)
}

/// What the surface holds before a screen draws itself: `ops`, then a clear
/// unless the screen is an overlay.
pub open spec fn cleared_ops(ops: Seq<DrawOp>, overlay: bool) -> Seq<DrawOp> {
    if overlay {
        ops
    } else {
        ops.push(DrawOp::Clear)
    }
}

/// A frame that no touch consumed: the buttons read as `input` reported, and
/// the key part of the frame follows from that reading.
pub open spec fn key_phase<S: Screen, I: InputSource>(
    input: &I,
    env: &Env,
    before: Runtime<S>,
    after: Runtime<S>,
    requests_before: Requests,
    requests_after: Requests,
) -> bool {
    exists|pressed: Option<Button>, held_down: bool, now: u32|
        #[trigger] key_readings(input, before.spec_repeat(), pressed, held_down, now) && key_step(
            env,
            before,
            after,
            requests_before,
            requests_after,
            pressed,
            held_down,
            now,
        )
}

/// The interactions of `screen`'s tree with focus at `focus`: its body,
/// measured against the whole screen, declares its regions at the origin into
/// a fresh collector.
pub fn collect_tree<S: Screen>(screen: &S, focus: usize, env: &Env) -> (out: Interactions<S::Message>)
    requires
        env.wf(),
    ensures
        out.wf(),
        exists|built: S::Body, measured: &mut S::Body|
            #![trigger call_ensures(S::body, (screen, env), built), call_ensures(<S::Body as Widget<S::Message>>::measure, (measured, env.screen, env), ())]
            call_ensures(S::body, (screen, env), built) && call_ensures(
                <S::Body as Widget<S::Message>>::measure,
                (measured, env.screen, env),
                (),
            ) && *measured == built && exists|
                declaring: &mut S::Body,
                collector: &mut Interactions<S::Message>,
            |
                    #[trigger] call_ensures(
                        <S::Body as Widget<S::Message>>::interactions,
                        (declaring, Point { x: 0, y: 0 }, collector, env),
                        (),
                    ) && *declaring == *final(measured) && collector.is_fresh(focus) && *final(collector)
                        == out,
{
    let mut view = screen.body(env);
    view.measure(env.screen, env);
    let mut out = Interactions::new(focus);
    let origin = Point::origin();
    view.interactions(origin, &mut out, env);
    out
}

/// Whether the control holding focus at `focus` among `collected` sends a
/// message — what Confirm then applies.
pub open spec fn focused_sends<M>(collected: Interactions<M>, focus: usize) -> bool {
    nth_focusable_index(collected.spec_items(), focus as int) matches Some(i)
        && collected.spec_items()[i].trigger is Message
}

/// Whether the control holding focus at `focus` among `collected` takes a
/// nudge — what Left/Right then apply.
pub open spec fn focused_steps<M>(collected: Interactions<M>, focus: usize) -> bool {
    nth_focusable_index(collected.spec_items(), focus as int) matches Some(i)
        && collected.spec_items()[i].mask.has(InputMask(16)) && collected.spec_items()[i].trigger is Step
}

/// Drives a [`Screen`]: owns focus, input routing, repeat timing and the
/// first-paint guard.
pub struct Runtime<S: Screen> {
    screen: S,
    /// Index into the focusable interactions, in tree order.
    focus: usize,
    /// No touch is routed before the first paint — the tree a touch would be
    /// tested against has not been shown yet.
    painted: bool,
    /// Swallows the release that ends a drag, so it cannot also read as a tap.
    dragging: bool,
    repeat: Repeat,
}

impl<S: Screen> Runtime<S> {
    pub closed spec fn spec_screen(&self) -> S {
        self.screen
    }

    pub closed spec fn spec_focus(&self) -> usize {
        self.focus
    }

    pub closed spec fn spec_painted(&self) -> bool {
        self.painted
    }

    pub closed spec fn spec_dragging(&self) -> bool {
        self.dragging
    }

    pub closed spec fn spec_repeat(&self) -> Repeat {
        self.repeat
    }

    pub fn new(screen: S) -> (r: Runtime<S>)
        ensures
            r.spec_screen() == screen,
            r.spec_focus() == 0,
            !r.spec_painted(),
            !r.spec_dragging(),
            r.spec_repeat() == (Repeat { button: None, pressed_at: 0, fired_at: 0 }),
    {
        Runtime {
            screen,
            focus: 0,
            painted: false,
            dragging: false,
            repeat: Repeat { button: None, pressed_at: 0, fired_at: 0 },
        }
    }

    /// Which interaction holds focus.
    pub fn focused_index(&self) -> (f: usize)
        ensures
            f == self.spec_focus(),
    {
        self.focus
    }

    /// The screen being driven.
    pub fn screen(&self) -> (s: &S)
        ensures
            *s == self.spec_screen(),
    {
        &self.screen
    }

    /// The screen being driven, for the host to hand it what the firmware
    /// reports and to collect what it asks of the firmware.
    pub fn screen_mut(&mut self) -> (s: &mut S)
        ensures
            *s == old(self).spec_screen(),
            final(self).spec_screen() == *final(s),
            final(self).spec_focus() == old(self).spec_focus(),
            final(self).spec_painted() == old(self).spec_painted(),
            final(self).spec_dragging() == old(self).spec_dragging(),
            final(self).spec_repeat() == old(self).spec_repeat(),
    {
        &mut self.screen
    }

    /// Builds, measures and collects the tree's interactions, as
    /// [`collect_tree`] does for this screen and focus.
    pub fn collect(&self, env: &Env) -> (out: Interactions<S::Message>)
        requires
            env.wf(),
        ensures
            out.wf(),
            call_ensures(collect_tree::<S>, (&self.spec_screen(), self.spec_focus(), env), out),
    {
        collect_tree(&self.screen, self.focus, env)
    }

    /// Applies a message and schedules the repaint the screen would otherwise
    /// have to remember.
    fn dispatch(&mut self, message: S::Message, requests: &mut Requests)
        ensures
            final(requests).update,
            exists|screen: &mut S, asked: &mut Requests|
                #[trigger] call_ensures(S::update, (screen, message, asked), ()) && *screen
                    == old(self).spec_screen() && *final(screen) == final(self).spec_screen() && *asked
                    == *old(requests) && *final(requests) == (Requests {
                    update: true,
                    finish: final(asked).finish,
                }),
            final(self).spec_focus() == old(self).spec_focus(),
            final(self).spec_painted() == old(self).spec_painted(),
            final(self).spec_dragging() == old(self).spec_dragging(),
            final(self).spec_repeat() == old(self).spec_repeat(),
    {
        self.screen.update(message, requests);
        request_update(requests);
    }

    /// Which button, if any, should act this frame — including auto-repeat
    /// for one held down.
    fn active_key<I: InputSource>(&mut self, input: &I) -> (k: Option<Button>)
        ensures
            exists|pressed: Option<Button>, held_down: bool, now: u32|
                #[trigger] key_readings(input, old(self).spec_repeat(), pressed, held_down, now)
                    && spec_next_key(old(self).spec_repeat(), pressed, held_down, now) == (
                    final(self).spec_repeat(),
                    k,
                ),
            final(self).spec_focus() == old(self).spec_focus(),
            final(self).spec_painted() == old(self).spec_painted(),
            final(self).spec_dragging() == old(self).spec_dragging(),
            final(self).spec_screen() == old(self).spec_screen(),
    {
        let now = input.millis();
        let mut pressed: Option<Button> = None;
        let mut index: usize = 0;
        while index < 8
            invariant_except_break
                pressed is None,
            invariant
                index <= 8,
                forall|j: int|
                    0 <= j < index ==> #[trigger] call_ensures(I::was_pressed, (input, key_order()[j]), false),
            ensures
                match pressed {
                    Some(key) => index < 8 && key_order()[index as int] == key && call_ensures(
                        I::was_pressed,
                        (input, key_order()[index as int]),
                        true,
                    ),
                    None => index == 8,
                },
            decreases 8 - index,
        {
            let key = key_at(index);
            if input.was_pressed(key) {
                pressed = Some(key);
                break;
            }
            index = index + 1;
        }
        let held_down = match (pressed, self.repeat.button) {
            (None, Some(held)) => input.is_pressed(held),
            _ => false,
        };
        proof {
            match pressed {
                Some(key) => {
                    let i = index as int;
                    assert(0 <= i < 8 && key_order()[i] == key && call_ensures(I::was_pressed, (input, key_order()[i]), true));
                },
                None => {},
            }
            assert(key_readings(input, self.repeat, pressed, held_down, now));
        }
        let (repeat, key) = next_key(self.repeat, pressed, held_down, now);
        self.repeat = repeat;
        key
    }

    /// Moves focus, wrapping at both ends. Returns whether anything moved.
    fn move_focus(&mut self, delta: i32, count: usize) -> (moved: bool)
        requires
            delta == 1 || delta == -1,
            old(self).spec_focus() < usize::MAX,
        ensures
            count == 0 ==> !moved && final(self).spec_focus() == old(self).spec_focus(),
            count > 0 ==> final(self).spec_focus() == spec_moved_focus(
                old(self).spec_focus() as int,
                delta as int,
                count as int,
            ),
            moved == (final(self).spec_focus() != old(self).spec_focus()),
            final(self).spec_painted() == old(self).spec_painted(),
            final(self).spec_dragging() == old(self).spec_dragging(),
            final(self).spec_repeat() == old(self).spec_repeat(),
            final(self).spec_screen() == old(self).spec_screen(),
    {
        if count == 0 {
            return false;
        }
        let next = if delta > 0 {
            (self.focus + 1) % count
        } else if self.focus == 0 {
            proof {
                vstd::arithmetic::div_mod::lemma_fundamental_div_mod_converse(
                    -1,
                    count as int,
                    -1,
                    count - 1,
                );
            }
            count - 1
        } else {
            let prev = self.focus - 1;
            if prev < count {
                proof {
                    vstd::arithmetic::div_mod::lemma_small_mod(prev as nat, count as nat);
                }
                prev
            } else {
                prev % count
            }
        };
        if next == self.focus {
            return false;
        }
        self.focus = next;
        true
    }

    /// The touch part of a frame: a drag, the release ending a drag, then a
    /// tap — on a control, then on the background. Returns whether the touch
    /// was consumed; when it was not, nothing has changed.
    fn route_touch<I: InputSource>(&mut self, input: &I, env: &Env, requests: &mut Requests) -> (consumed:
        bool)
        requires
            env.wf(),
        ensures
            !consumed ==> *final(self) == *old(self) && *final(requests) == *old(requests),
            consumed ==> final(self).spec_focus() == old(self).spec_focus() && final(self).spec_repeat()
                == old(self).spec_repeat() && final(self).spec_painted() == old(self).spec_painted(),
            consumed ==> exists|drag: bool, message: Option<S::Message>|
                #[trigger] touch_outcome(
                    input,
                    old(self).spec_screen(),
                    old(self).spec_focus(),
                    old(self).spec_dragging(),
                    env,
                    drag,
                    message,
                ) && match message {
                    None => final(self).spec_screen() == old(self).spec_screen() && !final(self).spec_dragging()
                        && *final(requests) == *old(requests),
                    Some(m) => final(self).spec_dragging() == (drag || old(self).spec_dragging()) && exists|
                        screen: &mut S,
                        asked: &mut Requests,
                    |
                        #[trigger] call_ensures(S::update, (screen, m, asked), ()) && *screen
                            == old(self).spec_screen() && *final(screen) == final(self).spec_screen() && *asked
                            == *old(requests) && *final(requests) == (Requests {
                            update: true,
                            finish: final(asked).finish,
                        }),
                },
            !consumed ==> touch_refused(input, old(self).spec_screen(), old(self).spec_dragging()),
            consumed && old(self).spec_dragging() && !final(self).spec_dragging() ==> exists|released: bool|
                #[trigger] call_ensures(I::touch_released, (input,), released) && released,
    {
        let ghost screen0 = self.screen;
        let ghost focus0 = self.focus;
        let ghost dragging0 = self.dragging;
        let held = input.touch_held();
        match held {
            Some(point) => {
                let interactions = collect_tree(&self.screen, self.focus, env);
                let found = resolve(&interactions, point, InputMask::drag(), &env.theme);
                match found {
                    Some(message) => {
                        assert(touch_hits(screen0, focus0, env, point, InputMask(4), Some(message)));
                        assert(touch_outcome(
                            input,
                            old(self).spec_screen(),
                            old(self).spec_focus(),
                            old(self).spec_dragging(),
                            env,
                            true,
                            Some(message),
                        ));
                        self.dragging = true;
                        self.dispatch(message, requests);
                        return true;
                    },
                    None => {
                        assert(touch_hits(screen0, focus0, env, point, InputMask(4), None));
                    },
                }
            },
            None => {},
        }

        let released = input.touch_released();
        if released && self.dragging {
            // Swallow the release that ended a drag: otherwise it reads as a
            // tap elsewhere and, on an overlay, closes the panel.
            self.dragging = false;
            assert(touch_outcome(
                input,
                old(self).spec_screen(),
                old(self).spec_focus(),
                old(self).spec_dragging(),
                env,
                false,
                None,
            ));
            return true;
        }

        let tapped = input.tap();
        match tapped {
            Some(point) => {
                let interactions = collect_tree(&self.screen, self.focus, env);
                let found = resolve(&interactions, point, InputMask::tap(), &env.theme);
                match found {
                    Some(message) => {
                        assert(touch_hits(screen0, focus0, env, point, InputMask(1), Some(message)));
                        assert(touch_outcome(input, screen0, focus0, dragging0, env, false, Some(message)));
                        self.dispatch(message, requests);
                        return true;
                    },
                    None => {
                        assert(touch_hits(screen0, focus0, env, point, InputMask(1), None));
                    },
                }
                let background = self.screen.on_background_tap(point);
                match background {
                    Some(message) => {
                        assert(touch_outcome(input, screen0, focus0, dragging0, env, false, Some(message)));
                        self.dispatch(message, requests);
                        return true;
                    },
                    None => {},
                }
            },
            None => {},
        }
        false
    }

    /// A key acting this frame: the screen's own meaning first, then Confirm,
    /// Up/Down, Left/Right and Back.
    fn route_key(&mut self, key: Button, env: &Env, requests: &mut Requests)
        requires
            env.wf(),
            old(self).spec_focus() < usize::MAX,
        ensures
            final(self).spec_painted() == old(self).spec_painted(),
            final(self).spec_dragging() == old(self).spec_dragging(),
            final(self).spec_repeat() == old(self).spec_repeat(),
            key_effect(
                old(self).spec_screen(),
                old(self).spec_focus(),
                env,
                *old(requests),
                key,
                final(self).spec_screen(),
                final(self).spec_focus(),
                *final(requests),
            ),
            exists|claimed: Option<S::Message>|
                #[trigger] call_ensures(S::on_key, (&old(self).spec_screen(), key), claimed) && match claimed {
                    Some(m) => exists|screen: &mut S, asked: &mut Requests|
                    #[trigger] call_ensures(S::update, (screen, m, asked), ()) && *screen
                        == old(self).spec_screen() && *final(screen) == final(self).spec_screen() && *asked
                        == *old(requests) && *final(requests) == (Requests {
                        update: true,
                        finish: final(asked).finish,
                    }),
                    None => (key == Button::Confirm || key == Button::Left || key == Button::Right)
                        ==> exists|collected: Interactions<S::Message>|
                        #[trigger] call_ensures(
                            collect_tree::<S>,
                            (&old(self).spec_screen(), old(self).spec_focus(), env),
                            collected,
                        ) && (nth_focusable_index(collected.spec_items(), old(self).spec_focus() as int) matches Some(
                            i,
                        ) ==> match collected.spec_items()[i].trigger {
                            Trigger::Message(m) => key == Button::Confirm ==> exists|sent: S::Message|
                                #[trigger] cloned(m, sent) && exists|screen: &mut S, asked: &mut Requests|
                    #[trigger] call_ensures(S::update, (screen, sent, asked), ()) && *screen
                        == old(self).spec_screen() && *final(screen) == final(self).spec_screen() && *asked
                        == *old(requests) && *final(requests) == (Requests {
                        update: true,
                        finish: final(asked).finish,
                    }),
                            Trigger::Step { make } => (key != Button::Confirm && collected.spec_items()[i].mask.has(
                                InputMask(16),
                            )) ==> exists|sent: S::Message|
                                #[trigger] (&**make).makes(nudge(key), sent) && exists|screen: &mut S, asked: &mut Requests|
                    #[trigger] call_ensures(S::update, (screen, sent, asked), ()) && *screen
                        == old(self).spec_screen() && *final(screen) == final(self).spec_screen() && *asked
                        == *old(requests) && *final(requests) == (Requests {
                        update: true,
                        finish: final(asked).finish,
                    }),
                            _ => true,
                        }),
                },
    {
        // The screen gets first refusal, so a screen wanting Up/Down for
        // something other than focus simply claims them.
        let claimed = self.screen.on_key(key);
        let ghost screen = self.screen;
        let ghost focus = self.focus;
        let ghost before = *requests;
        match claimed {
            Some(message) => {
                self.dispatch(message, requests);
                assert(key_effect(screen, focus, env, before, key, self.screen, self.focus, *requests));
                return ;
            },
            None => {},
        }

        match key {
            Button::Confirm => {
                let interactions = collect_tree(&self.screen, self.focus, env);
                match focused_message(&interactions, self.focus) {
                    Some(message) => self.dispatch(message, requests),
                    None => {},
                }
                assert(key_effect(screen, focus, env, before, key, self.screen, self.focus, *requests));
                return ;
            },
            Button::Up | Button::Down => {
                let count = collect_tree(&self.screen, self.focus, env).focusable_count();
                let delta: i32 = if key == Button::Up {
                    -1
                } else {
                    1
                };
                if self.move_focus(delta, count) {
                    request_update(requests);
                }
                assert(moved_by_one(focus, self.focus, key)) by {
                    if count > 0 {
                        assert(key_delta(key) == delta as int);
                        assert(count as int > 0 && self.focus == spec_moved_focus(
                            focus as int,
                            key_delta(key),
                            count as int,
                        ));
                    }
                }
            },
            Button::Left | Button::Right => {
                // Nudge whatever holds focus, so one pair of keys drives every
                // adjustable control instead of the screen wiring them to one.
                let interactions = collect_tree(&self.screen, self.focus, env);
                let delta: i32 = if key == Button::Left {
                    -1
                } else {
                    1
                };
                assert(delta == nudge(key));
                match focused_step(&interactions, self.focus, delta) {
                    Some(message) => self.dispatch(message, requests),
                    None => {},
                }
                assert(key_effect(screen, focus, env, before, key, self.screen, self.focus, *requests));
                return ;
            },
            Button::Back => finish_screen(requests),
            _ => {},
        }
        assert(key_effect(screen, focus, env, before, key, self.screen, self.focus, *requests));
    }

    /// One frame of input, in priority order: a drag, the release ending a
    /// drag, a tap (on a control, then on the background), then buttons — the
    /// screen's own meaning first, then Confirm, Up/Down, Left/Right and Back.
    /// No touch is routed before the first paint.
    pub fn loop_<I: InputSource>(&mut self, input: &I, env: &Env, requests: &mut Requests)
        requires
            env.wf(),
            old(self).spec_focus() < usize::MAX,
        ensures
            final(self).spec_painted() == old(self).spec_painted(),
            ({
                &&& old(self).spec_painted()
                &&& call_ensures(I::has_touch, (input,), true)
                &&& final(self).spec_focus() == old(self).spec_focus()
                &&& final(self).spec_repeat() == old(self).spec_repeat()
                &&& exists|drag: bool, message: Option<S::Message>|
                    #[trigger] touch_outcome(
                        input,
                        old(self).spec_screen(),
                        old(self).spec_focus(),
                        old(self).spec_dragging(),
                        env,
                        drag,
                        message,
                    ) && match message {
                        None => final(self).spec_screen() == old(self).spec_screen()
                            && !final(self).spec_dragging() && *final(requests) == *old(requests),
                        Some(m) => final(self).spec_dragging() == (drag || old(self).spec_dragging())
                            && exists|screen: &mut S, asked: &mut Requests|
                            #[trigger] call_ensures(S::update, (screen, m, asked), ()) && *screen
                                == old(self).spec_screen() && *final(screen) == final(self).spec_screen()
                                && *asked == *old(requests) && *final(requests) == (Requests {
                                update: true,
                                finish: final(asked).finish,
                            }),
                    }
            }) || ({
                &&& old(self).spec_painted() ==> (call_ensures(I::has_touch, (input,), false) || (
                call_ensures(I::has_touch, (input,), true) && touch_refused(
                    input,
                    old(self).spec_screen(),
                    old(self).spec_dragging(),
                )))
                &&& key_phase(input, env, *old(self), *final(self), *old(requests), *final(requests))
            }),
    {
        if self.painted {
            let touching = input.has_touch();
            if touching {
                if self.route_touch(input, env, requests) {
                    return ;
                }
            }
        }
        let ghost start = *self;
        let ghost before = *requests;
        let key = self.active_key(input);
        match key {
            Some(key) => {
                let ghost mid = *self;
                self.route_key(key, env, requests);
                assert(key_phase(input, env, start, *self, before, *requests)) by {
                    let pressed_held_now = choose|pressed: Option<Button>, held_down: bool, now: u32|
                        key_readings(input, start.spec_repeat(), pressed, held_down, now)
                            && spec_next_key(start.spec_repeat(), pressed, held_down, now) == (
                            mid.spec_repeat(),
                            Some(key),
                        );
                    let (pressed, held_down, now) = pressed_held_now;
                    assert(key_step(env, start, *self, before, *requests, pressed, held_down, now));
                }
            },
            None => {
                assert(key_phase(input, env, start, *self, before, *requests)) by {
                    let pressed_held_now = choose|pressed: Option<Button>, held_down: bool, now: u32|
                        key_readings(input, start.spec_repeat(), pressed, held_down, now)
                            && spec_next_key(start.spec_repeat(), pressed, held_down, now) == (
                            self.spec_repeat(),
                            None::<Button>,
                        );
                    let (pressed, held_down, now) = pressed_held_now;
                    assert(key_step(env, start, *self, before, *requests, pressed, held_down, now));
                }
            },
        }
    }

    /// Paints the screen: cleared first unless it is an overlay, then laid
    /// out, its interactions collected so each widget knows whether it holds
    /// focus, and drawn. Touches are routed from the first paint on.
    pub fn render(&mut self, env: &Env, out: &mut Renderer)
        requires
            env.wf(),
        ensures
            final(self).spec_painted(),
            final(self).spec_focus() == old(self).spec_focus(),
            final(self).spec_dragging() == old(self).spec_dragging(),
            final(self).spec_repeat() == old(self).spec_repeat(),
            final(out).screen == old(out).screen,
            final(out).title == old(out).title,
            final(out).ops@.take(old(out).ops@.len() as int) == old(out).ops@,
            final(self).spec_screen() == old(self).spec_screen(),
            exists|overlay: bool, built: S::Body|
                #![trigger call_ensures(S::is_overlay, (&old(self).spec_screen(),), overlay), call_ensures(S::body, (&old(self).spec_screen(), env), built)]
                call_ensures(S::is_overlay, (&old(self).spec_screen(),), overlay) && call_ensures(
                    S::body,
                    (&old(self).spec_screen(), env),
                    built,
                ) && exists|measured: &mut S::Body|
                    #[trigger] call_ensures(
                        <S::Body as Widget<S::Message>>::measure,
                        (measured, env.screen, env),
                        (),
                    ) && *measured == built && exists|
                            declaring: &mut S::Body,
                            collector: &mut Interactions<S::Message>,
                            drawn: &mut Renderer,
                        |
                            #![trigger call_ensures(<S::Body as Widget<S::Message>>::interactions, (declaring, Point { x: 0, y: 0 }, collector, env), ()), call_ensures(<S::Body as Widget<S::Message>>::render, (&*final(declaring), Point { x: 0, y: 0 }, drawn, env), ())]
                            call_ensures(
                                <S::Body as Widget<S::Message>>::interactions,
                                (declaring, Point { x: 0, y: 0 }, collector, env),
                                (),
                            ) && *declaring == *final(measured) && collector.is_fresh(old(self).spec_focus())
                                && call_ensures(
                                <S::Body as Widget<S::Message>>::render,
                                (&*final(declaring), Point { x: 0, y: 0 }, drawn, env),
                                (),
                            ) && drawn.screen == old(out).screen && drawn.title == old(out).title
                                && drawn.ops@ == cleared_ops(old(out).ops@, overlay) && *final(drawn)
                                == *final(out),
    {
        let ghost start = out.ops@;
        let ghost r0 = *out;
        let overlay = self.screen.is_overlay();
        if !overlay {
            out.clear();
        }
        let ghost cleared = out.ops@;
        let mut view = self.screen.body(env);
        view.measure(env.screen, env);
        let mut interactions = Interactions::new(self.focus);
        let origin = Point::origin();
        view.interactions(origin, &mut interactions, env);
        view.render(origin, out, env);
        self.painted = true;
        proof {
            assert(cleared.take(start.len() as int) =~= start);
            assert(out.ops@.take(cleared.len() as int) == cleared);
            assert(out.ops@.take(start.len() as int) =~= start);
        }
    }

    /// Hands the screen its entry: the screen changes as its own `on_enter`
    /// does, and the runtime's own state stays as it was.
    pub fn on_enter(&mut self)
        ensures
            exists|screen: &mut S|
                #[trigger] call_ensures(S::on_enter, (screen,), ()) && *screen == old(self).spec_screen()
                    && *final(screen) == final(self).spec_screen(),
            final(self).spec_focus() == old(self).spec_focus(),
            final(self).spec_painted() == old(self).spec_painted(),
            final(self).spec_dragging() == old(self).spec_dragging(),
            final(self).spec_repeat() == old(self).spec_repeat(),
    {
        self.screen.on_enter();
    }

    /// Hands the screen its exit: the screen changes as its own `on_exit`
    /// does, and the runtime's own state stays as it was.
    pub fn on_exit(&mut self)
        ensures
            exists|screen: &mut S|
                #[trigger] call_ensures(S::on_exit, (screen,), ()) && *screen == old(self).spec_screen()
                    && *final(screen) == final(self).spec_screen(),
            final(self).spec_focus() == old(self).spec_focus(),
            final(self).spec_painted() == old(self).spec_painted(),
            final(self).spec_dragging() == old(self).spec_dragging(),
            final(self).spec_repeat() == old(self).spec_repeat(),
    {
        self.screen.on_exit();
    }

    /// The system home gesture, offered to the screen: whether it consumed
    /// the gesture, what it asked of the host and how it changed are its own
    /// `handle_home_gesture`'s answer; the runtime's own state stays as it was.
    pub fn handle_home_gesture(&mut self, requests: &mut Requests) -> (consumed: bool)
        ensures
            exists|screen: &mut S, asked: &mut Requests|
                #[trigger] call_ensures(S::handle_home_gesture, (screen, asked), consumed)
                    && *screen == old(self).spec_screen() && *final(screen) == final(self).spec_screen()
                    && *asked == *old(requests) && *final(asked) == *final(requests),
            final(self).spec_focus() == old(self).spec_focus(),
            final(self).spec_painted() == old(self).spec_painted(),
            final(self).spec_dragging() == old(self).spec_dragging(),
            final(self).spec_repeat() == old(self).spec_repeat(),
    {
        self.screen.handle_home_gesture(requests)
    }
}

} // verus!
