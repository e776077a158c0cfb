//! What a widget declares, and what a touch or a key turns it into.
//!
//! A widget never hit-tests. It declares the regions it owns and the message
//! each produces, and the runtime resolves one frame of input against that
//! list.
use vstd::prelude::*;

use crate::geometry::{fits_i32, nonneg, Point, Rect, Size};
use crate::host::{
    coord, extent, point_in_range, rect_in_range, size_in_range, Renderer, TextMetrics, Theme,
    Translations,
};
use crate::units::div_toward_zero;
use std::rc::Rc;

verus! {

/// Which kinds of input an interaction accepts.
///
/// This is what stops a finger resting on a button re-firing it every frame:
/// only drag interactions are offered held touches, and everything else acts
/// once, on release.
#[derive(Copy, Clone, Debug, PartialEq, Eq, Structural)]
pub struct InputMask(pub u8);

impl InputMask {
    /// A tap: press and release inside the control.
    pub fn tap() -> (m: InputMask)
        ensures
            m.0 == 1,
    {
        InputMask(1)
    }

    /// Reachable by Up/Down, activated by Confirm.
    pub fn focus() -> (m: InputMask)
        ensures
            m.0 == 2,
    {
        InputMask(2)
    }

    /// Receives every frame the finger is down, with its position.
    pub fn drag() -> (m: InputMask)
        ensures
            m.0 == 4,
    {
        InputMask(4)
    }

    /// A press held past the long-press threshold.
    pub fn long_press() -> (m: InputMask)
        ensures
            m.0 == 8,
    {
        InputMask(8)
    }

    /// Left/Right nudge this control while it holds focus.
    pub fn adjust() -> (m: InputMask)
        ensures
            m.0 == 16,
    {
        InputMask(16)
    }

    /// What an ordinary control wants: tappable, and reachable by button.
    pub fn default_mask() -> (m: InputMask)
        ensures
            m.0 == 3,
    {
        InputMask(3)
    }

    /// Every bit of `other` is set in this mask.
    pub open spec fn has(self, other: InputMask) -> bool {
        self.0 & other.0 == other.0
    }

    pub fn union(self, other: InputMask) -> (m: InputMask)
        ensures
            m.0 == self.0 | other.0,
    {
        InputMask(self.0 | other.0)
    }

    /// This mask with `other`'s bits removed.
    pub fn without(self, other: InputMask) -> (m: InputMask)
        ensures
            m.0 == self.0 & !other.0,
    {
        InputMask(self.0 & !other.0)
    }

    pub fn contains(self, other: InputMask) -> (b: bool)
        ensures
            b == self.has(other),
    {
        self.0 & other.0 == other.0
    }
}

/// `a | b` is `a.union(b)`.
impl std::ops::BitOr for InputMask {
    type Output = InputMask;

    fn bitor(self, other: InputMask) -> (m: InputMask)
        ensures
            m.0 == self.0 | other.0,
    {
        self.union(other)
    }
}

impl vstd::std_specs::ops::BitOrSpecImpl for InputMask {
    open spec fn obeys_bitor_spec() -> bool {
        true
    }

    open spec fn bitor_req(self, other: InputMask) -> bool {
        true
    }

    open spec fn bitor_spec(self, other: InputMask) -> InputMask {
        InputMask(self.0 | other.0)
    }
}

/// A union accepts everything either side accepts, and nothing else.
pub proof fn lemma_union_has(a: InputMask, b: InputMask, c: InputMask)
    ensures
        InputMask(a.0 | b.0).has(a),
        InputMask(a.0 | b.0).has(b),
        a.has(c) ==> InputMask(a.0 | b.0).has(c),
        b.has(c) ==> InputMask(a.0 | b.0).has(c),
        InputMask(a.0 | b.0).has(c) <==> c.0 & !(a.0 | b.0) == 0,
        InputMask(a.0 | b.0) == InputMask(b.0 | a.0),
        InputMask(a.0 | a.0) == a,
{
    let (x, y, z) = (a.0, b.0, c.0);
    assert(y & z == z ==> (x | y) & z == z) by (bit_vector);
    assert(((x | y) & z == z) <==> (z & !(x | y) == 0)) by (bit_vector);
    assert(x | y == y | x) by (bit_vector);
    assert(x | x == x) by (bit_vector);
    assert((x | y) & x == x) by (bit_vector);
    assert((x | y) & y == y) by (bit_vector);
    assert(x & z == z ==> (x | y) & z == z) by (bit_vector);
}

/// Removing a kind withdraws it — no bit of it survives — and keeps every
/// kind that shares no bit with it.
pub proof fn lemma_without_has(a: InputMask, b: InputMask, c: InputMask)
    ensures
        (a.0 & !b.0) & b.0 == 0,
        a.has(c) && c.0 & b.0 == 0 ==> InputMask(a.0 & !b.0).has(c),
        InputMask(a.0 & !b.0).has(c) ==> a.has(c),
{
    let (x, y, z) = (a.0, b.0, c.0);
    assert((x & !y) & y == 0) by (bit_vector);
    assert((x & z == z && z & y == 0) ==> (x & !y) & z == z) by (bit_vector);
    assert((x & !y) & z == z ==> x & z == z) by (bit_vector);
}

/// Every mask accepts itself, and acceptance is transitive: a mask that
/// accepts a combination accepts each of its parts.
pub proof fn lemma_has_order(a: InputMask, b: InputMask, c: InputMask)
    ensures
        a.has(a),
        a.has(b) && b.has(c) ==> a.has(c),
{
    let (x, y, z) = (a.0, b.0, c.0);
    assert(x & x == x) by (bit_vector);
    assert((x & y == y && y & z == z) ==> x & z == z) by (bit_vector);
}

/// The five kinds are distinct bits: a tap-only control is never focusable,
/// never dragged, and the default control takes taps and focus but no drags.
pub proof fn lemma_kinds_distinct()
    ensures
        !InputMask(1).has(InputMask(2)),
        !InputMask(1).has(InputMask(4)),
        !InputMask(3).has(InputMask(4)),
        InputMask(3).has(InputMask(1)),
        InputMask(3).has(InputMask(2)),
        !InputMask(5).has(InputMask(2)),
{
    assert(1u8 & 2u8 == 0u8) by (bit_vector);
    assert(1u8 & 4u8 == 0u8) by (bit_vector);
    assert(3u8 & 4u8 == 0u8) by (bit_vector);
    assert(3u8 & 1u8 == 1u8) by (bit_vector);
    assert(3u8 & 2u8 == 2u8) by (bit_vector);
    assert(5u8 & 2u8 == 0u8) by (bit_vector);
}

/// A slider knob's width, as the firmware's own slider draws it.
pub const KNOB_WIDTH: i32 = 14;

/// The padding a slider track is inset by at each end.
pub const TRACK_INSET: i32 = 8;

/// Builds a control's message from a number: the value a touch landed on, or
/// the size of a nudge.
///
/// Implemented by the screens that own the message type; the framework only
/// decides which number is handed over.
pub trait MakeMessage<M> {
    /// Whether `m` is a message this builder may return for `value`. A
    /// builder that states nothing may return any message.
    open spec fn makes(&self, value: i32, m: M) -> bool {
        true
    }

    fn make(&self, value: i32) -> (m: M)
        ensures
            self.makes(value, m),
    ;
}

/// A builder seen through `conversion` gives, for each value, a conversion of
/// what `inner` gives for that value.
pub open spec fn maps_through<N, M>(
    outer: Rc<Box<dyn MakeMessage<M>>>,
    inner: Rc<Box<dyn MakeMessage<N>>>,
    conversion: Rc<Box<dyn Convert<N, M>>>,
) -> bool {
    forall|v: i32, m: M|
        #[trigger] (&**outer).makes(v, m) ==> exists|n: N|
            (&**inner).makes(v, n) && #[trigger] converts::<N, M, dyn Convert<N, M>>(&**conversion, n, m)
}

/// Turns a component's message into the message of the screen that embeds it.
pub trait Convert<N, M> {
    fn convert(&self, message: N) -> M;
}

/// `outer` is what `inner`, declared inside an embedded component, becomes in
/// the parent: the same rect and kinds of input, a message converted, and a
/// value or step control still one, on the same scale, whose builder gives a
/// conversion of what the component's builder gives.
pub open spec fn absorbed<N, M>(
    inner: Interaction<N>,
    outer: Interaction<M>,
    conversion: Rc<Box<dyn Convert<N, M>>>,
) -> bool {
    &&& outer.rect == inner.rect
    &&& outer.mask == inner.mask
    &&& match inner.trigger {
        Trigger::Message(n) => outer.trigger matches Trigger::Message(m) && converts::<
            N,
            M,
            dyn Convert<N, M>,
        >(&**conversion, n, m),
        Trigger::Value { make, max } => outer.trigger matches Trigger::Value { make: built, max: scale }
            && scale == max && maps_through::<N, M>(built, make, conversion),
        Trigger::Step { make } => outer.trigger matches Trigger::Step { make: built }
            && maps_through::<N, M>(built, make, conversion),
    }
}

/// `inner` seen through `conversion`, shared the way a trigger holds a
/// builder.
fn mapped_builder<N: 'static, M: 'static>(
    inner: Rc<Box<dyn MakeMessage<N>>>,
    conversion: &Rc<Box<dyn Convert<N, M>>>,
) -> (built: Rc<Box<dyn MakeMessage<M>>>)
    ensures
        maps_through::<N, M>(built, inner, *conversion),
{
    let ghost from = inner;
    let mapped = Mapped::new(inner, share(conversion));
    let ghost seen = mapped;
    let boxed: Box<dyn MakeMessage<M>> = Box::new(mapped);
    let built = Rc::new(boxed);
    assert forall|v: i32, m: M| #[trigger] (&**built).makes(v, m) implies exists|n: N|
        (&**from).makes(v, n) && #[trigger] converts::<N, M, dyn Convert<N, M>>(
            &***conversion,
            n,
            m,
        ) by {
        assert(seen.makes(v, m));
    }
    built
}

/// The trigger `trigger` becomes seen through `conversion`: a message is
/// converted now, a value or step control builds its own message and then
/// converts it.
pub fn absorb_trigger<N: 'static, M: 'static>(
    trigger: Trigger<N>,
    conversion: &Rc<Box<dyn Convert<N, M>>>,
) -> (r: Trigger<M>)
    ensures
        match trigger {
            Trigger::Message(n) => r matches Trigger::Message(m) && converts::<
                N,
                M,
                dyn Convert<N, M>,
            >(&***conversion, n, m),
            Trigger::Value { make, max } => r matches Trigger::Value { make: built, max: scale }
                && scale == max && maps_through::<N, M>(built, make, *conversion),
            Trigger::Step { make } => r matches Trigger::Step { make: built } && maps_through::<N, M>(built, make, *conversion),
        },
{
    match trigger {
        Trigger::Message(n) => {
            let m = convert_message::<N, M, dyn Convert<N, M>>(&***conversion, n);
            Trigger::Message(m)
        },
        Trigger::Value { make, max } => {
            let built = mapped_builder(make, conversion);
            Trigger::Value { make: built, max }
        },
        Trigger::Step { make } => {
            let built = mapped_builder(make, conversion);
            Trigger::Step { make: built }
        },
    }
}

/// Whether `m` is a message `conversion` can return for `n`.
pub open spec fn converts<N, M, C: Convert<N, M> + ?Sized>(conversion: &C, n: N, m: M) -> bool {
    call_ensures(C::convert, (conversion, n), m)
}

/// Asks `conversion` for the parent's message standing for `n`.
pub fn convert_message<N, M, C: Convert<N, M> + ?Sized>(conversion: &C, n: N) -> (m: M)
    ensures
        converts(conversion, n, m),
{
    conversion.convert(n)
}

/// A component's message builder seen through a conversion: it builds the
/// component's message, then converts it.
#[verifier::reject_recursive_types(N)]
#[verifier::reject_recursive_types(M)]
pub struct Mapped<N, M> {
    inner: Rc<Box<dyn MakeMessage<N>>>,
    conversion: Rc<Box<dyn Convert<N, M>>>,
}

impl<N, M> Mapped<N, M> {
    pub closed spec fn spec_inner(&self) -> Rc<Box<dyn MakeMessage<N>>> {
        self.inner
    }

    pub closed spec fn spec_conversion(&self) -> Rc<Box<dyn Convert<N, M>>> {
        self.conversion
    }

    pub fn new(inner: Rc<Box<dyn MakeMessage<N>>>, conversion: Rc<Box<dyn Convert<N, M>>>) -> (r: Mapped<N, M>)
        ensures
            r.spec_inner() == inner,
            r.spec_conversion() == conversion,
    {
        Mapped { inner, conversion }
    }
}

impl<N, M> MakeMessage<M> for Mapped<N, M> {
    open spec fn makes(&self, value: i32, m: M) -> bool {
        exists|n: N|
            (&**self.spec_inner()).makes(value, n) && #[trigger] converts::<
                N,
                M,
                dyn Convert<N, M>,
            >(&**self.spec_conversion(), n, m)
    }

    fn make(&self, value: i32) -> (m: M)
        ensures
            exists|n: N|
                (&**self.spec_inner()).makes(value, n) && #[trigger] converts::<
                    N,
                    M,
                    dyn Convert<N, M>,
                >(&**self.spec_conversion(), n, m),
    {
        let n = (&**self.inner).make(value);
        let ghost built = n;
        let m = convert_message::<N, M, dyn Convert<N, M>>(&**self.conversion, n);
        assert(converts::<N, M, dyn Convert<N, M>>(&**self.spec_conversion(), built, m));
        m
    }
}

/// Wraps `Rc::clone`, which by its documentation makes a new pointer to the
/// same allocation: the handle returned is the value it was cloned from.
#[verifier::external_body]
pub(crate) fn share<T: ?Sized>(handle: &Rc<T>) -> (r: Rc<T>)
    ensures
        r == *handle,
{
    Rc::clone(handle)
}

/// Builds a control's message from the state a switch is moving to.
pub trait MakeFlag<M> {
    fn make(&self, on: bool) -> M;
}

/// Whether `m` is a message `maker` can return for `on`.
pub open spec fn builds_flag<M, T: MakeFlag<M> + ?Sized>(maker: &T, on: bool, m: M) -> bool {
    call_ensures(T::make, (maker, on), m)
}

/// Asks `maker` for the message of `on`.
pub fn build_flag<M, T: MakeFlag<M> + ?Sized>(maker: &T, on: bool) -> (m: M)
    ensures
        builds_flag(maker, on, m),
{
    maker.make(on)
}

/// What an interaction produces when it fires.
///
/// `Message` covers buttons, rows and toggles: the widget knows what it means,
/// so it builds the message when the tree is built. `Value` is for controls
/// whose message depends on *where* the touch landed — the framework converts
/// the position and builds the message, so no screen re-derives slider
/// geometry. `Step` is a relative nudge: `-1` or `+1` from Left/Right, or from
/// a `-`/`+` glyph.
#[verifier::reject_recursive_types(M)]
pub enum Trigger<M> {
    Message(M),
    Value { make: Rc<Box<dyn MakeMessage<M>>>, max: i32 },
    Step { make: Rc<Box<dyn MakeMessage<M>>> },
}

/// The value the slider arithmetic reads at `x` along `track`, before
/// rounding: how far past the start of the knob's travel, and how long that
/// travel is.
pub open spec fn usable_travel(track: Rect, theme: Theme) -> int {
    let u = track.size.width - theme.slider_side_inset * 2 - theme.slider_knob_width;
    if u < 1 {
        1
    } else {
        u
    }
}

pub open spec fn travel_offset(track: Rect, x: int, theme: Theme) -> int {
    let o = x - track.origin.x - theme.slider_side_inset - div_toward_zero(theme.slider_knob_width as int, 2);
    let u = usable_travel(track, theme);
    if o < 0 {
        0
    } else if o > u {
        u
    } else {
        o
    }
}

/// The value a touch at `x` represents within `track`, rounded to nearest.
pub open spec fn spec_value_at(track: Rect, x: int, max: int, theme: Theme) -> int {
    let u = usable_travel(track, theme);
    div_toward_zero(travel_offset(track, x, theme) * max + u / 2, u)
}

/// The value a touch at `x` represents within `track`.
///
/// Rounds to nearest, matching the `(permille * range + 500) / 1000` the
/// firmware's own slider screens use, so dragging feels identical in both.
/// The inset and knob width come from the theme: the host draws the knob.
/// The arithmetic is carried wide, so every input has its reading.
pub fn value_at(track: Rect, x: i32, max: i32, theme: &Theme) -> (v: i32)
    ensures
        v == spec_value_at(track, x as int, max as int, *theme),
{
    let inset = theme.slider_side_inset as i128;
    let knob = theme.slider_knob_width as i128;
    let raw = track.size.width as i128 - inset * 2 - knob;
    let usable: i128 = if raw < 1 {
        1
    } else {
        raw
    };
    let half_knob: i128 = if knob >= 0 {
        knob / 2
    } else {
        -((-knob) / 2)
    };
    let start = x as i128 - track.origin.x as i128 - inset - half_knob;
    let offset: i128 = if start < 0 {
        0
    } else if start > usable {
        usable
    } else {
        start
    };
    proof {
        assert(0 <= offset <= usable);
        assert(-0x8000_0000 * usable <= offset * (max as i128) <= 0x8000_0000 * usable) by (nonlinear_arith)
            requires
                0 <= offset <= usable,
                -0x8000_0000 <= max <= 0x7fff_ffff,
        ;
        lemma_value_at_bounded(track, x as int, max as int, *theme);
    }
    let numerator = offset * (max as i128) + usable / 2;
    let value: i128 = if numerator >= 0 {
        numerator / usable
    } else {
        -((-numerator) / usable)
    };
    value as i32
}

/// Every reading lies between the scale's end and zero: within `0..=max`
/// for a non-negative `max`, within `max..=0` otherwise.
pub proof fn lemma_value_at_bounded(track: Rect, x: int, max: int, theme: Theme)
    ensures
        spec_value_at(track, x, max, theme) <= if max > 0 { max } else { 0 },
        spec_value_at(track, x, max, theme) >= if max < 0 { max } else { 0 },
{
    let u = usable_travel(track, theme);
    let o = travel_offset(track, x, theme);
    let n = o * max + u / 2;
    assert(0 <= u / 2 < u);
    if max >= 0 {
        assert(0 <= o * max <= u * max) by (nonlinear_arith)
            requires
                0 <= o <= u,
                max >= 0,
        ;
        assert(n / u <= max) by (nonlinear_arith)
            requires
                0 <= n < u * max + u,
                u >= 1,
        ;
        assert(n / u >= 0) by (nonlinear_arith)
            requires
                n >= 0,
                u >= 1,
        ;
    } else {
        assert(u * max <= o * max <= 0) by (nonlinear_arith)
            requires
                0 <= o <= u,
                max < 0,
        ;
        if n >= 0 {
            assert(n / u == 0) by (nonlinear_arith)
                requires
                    0 <= n < u,
                    u >= 1,
            ;
        } else {
            assert((-n) / u <= -max) by (nonlinear_arith)
                requires
                    0 < -n <= -(u * max),
                    u >= 1,
            ;
            assert((-n) / u >= 0) by (nonlinear_arith)
                requires
                    -n > 0,
                    u >= 1,
            ;
        }
    }
}

/// A touch always reads a value on the slider's scale: never below zero and
/// never past `max`.
pub proof fn lemma_value_at_in_range(track: Rect, x: int, max: int, theme: Theme)
    requires
        max >= 0,
    ensures
        0 <= spec_value_at(track, x, max, theme) <= max,
{
    let u = usable_travel(track, theme);
    let o = travel_offset(track, x, theme);
    assert(0 <= o <= u);
    assert(0 <= o * max <= u * max) by (nonlinear_arith)
        requires
            0 <= o <= u,
            max >= 0,
    ;
    let n = o * max + u / 2;
    assert(n >= 0);
    assert(n / u >= 0) by (nonlinear_arith)
        requires
            n >= 0,
            u >= 1,
    ;
    assert(n / u <= max) by (nonlinear_arith)
        requires
            n == o * max + u / 2,
            0 <= o * max <= u * max,
            u >= 1,
            max >= 0,
    {
        assert(u / 2 < u);
        assert(n < u * max + u);
        assert(n < u * (max + 1));
    }
}

/// Sliding a finger right never lowers the reading.
pub proof fn lemma_value_at_monotone(track: Rect, x1: int, x2: int, max: int, theme: Theme)
    requires
        max >= 0,
        x1 <= x2,
    ensures
        spec_value_at(track, x1, max, theme) <= spec_value_at(track, x2, max, theme),
{
    let u = usable_travel(track, theme);
    let o1 = travel_offset(track, x1, theme);
    let o2 = travel_offset(track, x2, theme);
    assert(0 <= o1 <= o2);
    assert(o1 * max <= o2 * max) by (nonlinear_arith)
        requires
            0 <= o1 <= o2,
            max >= 0,
    ;
    let n1 = o1 * max + u / 2;
    let n2 = o2 * max + u / 2;
    assert(0 <= n1 <= n2);
    vstd::arithmetic::div_mod::lemma_div_is_ordered(n1, n2, u);
}

/// The ends of the travel read as the ends of the scale: a touch at or before
/// the knob's first position reads zero, at or past its last reads `max`.
pub proof fn lemma_value_at_ends(track: Rect, x: int, max: int, theme: Theme)
    requires
        max >= 0,
    ensures
        travel_offset(track, x, theme) == 0 ==> spec_value_at(track, x, max, theme) == 0,
        travel_offset(track, x, theme) == usable_travel(track, theme) ==> spec_value_at(
            track,
            x,
            max,
            theme,
        ) == max,
{
    let u = usable_travel(track, theme);
    let o = travel_offset(track, x, theme);
    if o == 0 {
        assert((u / 2) / u == 0) by (nonlinear_arith)
            requires
                u >= 1,
        ;
        assert(o * max == 0);
    }
    if o == u {
        assert((u * max + u / 2) / u == max) by (nonlinear_arith)
            requires
                u >= 1,
                max >= 0,
        {
            assert(0 <= u / 2 < u);
            vstd::arithmetic::div_mod::lemma_fundamental_div_mod_converse(
                u * max + u / 2,
                u,
                max,
                u / 2,
            );
        }
    }
}

impl<M: Clone> Trigger<M> {
    /// Resolves to a message. `x` is the touch position, ignored by controls
    /// that do not depend on it.
    ///
    /// Public so a test can assert what a control *would* send without driving
    /// the whole runtime.
    pub fn resolve(&self, rect: Rect, x: i32, theme: &Theme) -> (m: M)
        ensures
            self matches Trigger::Message(msg) ==> cloned(*msg, m),
            self matches Trigger::Value { make, max } ==> (&***make).makes(spec_value_at(rect, x as int, max as int, *theme) as i32, m),
            self matches Trigger::Step { make } ==> (&***make).makes(0, m),
    {
        match self {
            Trigger::Message(message) => message.clone(),
            Trigger::Value { make, max } => {
                let value = value_at(rect, x, *max, theme);
                (&***make).make(value)
            },
            // A step has no absolute reading; Confirm on one does nothing,
            // which is why the runtime skips it.
            Trigger::Step { make } => (&***make).make(0),
        }
    }

    /// The message for a relative nudge, or `None` for a control that has no
    /// meaningful step.
    pub fn resolve_step(&self, delta: i32) -> (m: Option<M>)
        ensures
            self matches Trigger::Step { make } ==> m matches Some(n) && (&***make).makes(delta, n),
            !(self is Step) ==> m is None,
    {
        match self {
            Trigger::Step { make } => Some((&***make).make(delta)),
            _ => None,
        }
    }
}


/// One interactive region, as declared by the widget that owns it.
#[verifier::reject_recursive_types(M)]
pub struct Interaction<M> {
    pub rect: Rect,
    pub mask: InputMask,
    pub trigger: Trigger<M>,
}

/// How many of `items` can hold focus.
pub open spec fn count_focusable<M>(items: Seq<Interaction<M>>) -> nat
    decreases items.len(),
{
    if items.len() == 0 {
        0
    } else {
        count_focusable(items.drop_last()) + if items.last().mask.has(InputMask(2)) {
            1nat
        } else {
            0nat
        }
    }
}

/// The rect of the `n`th focusable item, counting in tree order from zero.
pub open spec fn nth_focusable_rect<M>(items: Seq<Interaction<M>>, n: int) -> Option<Rect>
    decreases items.len(),
{
    if items.len() == 0 {
        None
    } else if items[0].mask.has(InputMask(2)) {
        if n == 0 {
            Some(items[0].rect)
        } else {
            nth_focusable_rect(items.drop_first(), n - 1)
        }
    } else {
        nth_focusable_rect(items.drop_first(), n)
    }
}

/// Every rect's far edges are representable, so it can be hit-tested.
pub open spec fn rects_fit<M>(items: Seq<Interaction<M>>) -> bool {
    forall|i: int| 0 <= i < items.len() ==> (#[trigger] items[i]).rect.edges_fit()
}

/// Collects a tree's interactions, telling each one whether it has focus as it
/// is declared.
///
/// Focus is an index into the focusable interactions **in tree order**. A
/// widget learns its own state from the return value of `declare` rather than
/// being told in a later pass, so there is no third walk to keep in step with
/// `render`.
#[verifier::reject_recursive_types(M)]
pub struct Interactions<M> {
    items: Vec<Interaction<M>>,
    focus: usize,
    focusable: usize,
    /// Set when a view captured input, carrying the focus index it would like
    /// while it is up. `None` means nothing captured this frame.
    captured: Option<usize>,
    /// While true, declarations are ignored entirely: the second pass of a
    /// frame that captures, so views behind a dialog neither take focus nor
    /// paint themselves focused.
    ignoring: bool,
    /// How far the scrolling view has been scrolled, handed down by the
    /// runtime.
    scroll: i32,
    /// The scrolling viewport and the height of what it holds.
    viewport: Option<(Rect, i32)>,
}

impl<M> Interactions<M> {
    pub closed spec fn spec_items(&self) -> Seq<Interaction<M>> {
        self.items@
    }

    pub closed spec fn spec_focus(&self) -> usize {
        self.focus
    }

    pub closed spec fn spec_focusable(&self) -> usize {
        self.focusable
    }

    pub closed spec fn spec_captured(&self) -> Option<usize> {
        self.captured
    }

    pub closed spec fn spec_ignoring(&self) -> bool {
        self.ignoring
    }

    pub closed spec fn spec_scroll(&self) -> i32 {
        self.scroll
    }

    pub closed spec fn spec_viewport(&self) -> Option<(Rect, i32)> {
        self.viewport
    }

    /// The collector's own bookkeeping holds: it never counts more focus stops
    /// than it has items, every rect can be hit-tested, and a pass that is
    /// ignoring has collected nothing.
    pub open spec fn wf(&self) -> bool {
        &&& self.spec_focusable() <= self.spec_items().len()
        &&& rects_fit(self.spec_items())
    }

    /// The focus count is exactly the number of focusable items collected.
    /// `new`, `capturing` and `capture` establish it; `declare`, `absorb` of a
    /// collector that has it, and `restrict_outside` with a mask that leaves
    /// focus alone keep it.
    pub open spec fn counted(&self) -> bool {
        self.spec_focusable() == count_focusable(self.spec_items())
    }

    /// Whether this is a collector as `new(focus)` makes it: nothing
    /// collected, no capture, not ignoring, not scrolled.
    pub open spec fn is_fresh(&self, focus: usize) -> bool {
        &&& self.spec_items().len() == 0
        &&& self.spec_focus() == focus
        &&& self.spec_focusable() == 0
        &&& self.spec_captured() is None
        &&& !self.spec_ignoring()
        &&& self.spec_scroll() == 0
        &&& self.spec_viewport() is None
    }

    /// A collector for a tree whose focused control is at `focus`.
    pub fn new(focus: usize) -> (r: Interactions<M>)
        ensures
            r.wf(),
            r.counted(),
            r.spec_items().len() == 0,
            r.spec_focus() == focus,
            r.spec_focusable() == 0,
            r.spec_captured() is None,
            !r.spec_ignoring(),
            r.spec_scroll() == 0,
            r.spec_viewport() is None,
    {
        Interactions {
            items: Vec::new(),
            focus,
            focusable: 0,
            captured: None,
            ignoring: false,
            scroll: 0,
            viewport: None,
        }
    }

    /// A pass that ignores everything until a view calls `capture`.
    ///
    /// The runtime uses this once it knows the frame contains a capturing view:
    /// a first pass finds out, a second collects only what is reachable.
    pub fn capturing(focus: usize) -> (r: Interactions<M>)
        ensures
            r.wf(),
            r.counted(),
            r.spec_items().len() == 0,
            r.spec_focus() == focus,
            r.spec_focusable() == 0,
            r.spec_captured() is None,
            r.spec_ignoring(),
            r.spec_scroll() == 0,
            r.spec_viewport() is None,
    {
        Interactions {
            items: Vec::new(),
            focus,
            focusable: 0,
            captured: None,
            ignoring: true,
            scroll: 0,
            viewport: None,
        }
    }

    /// Registers an interaction, returning whether it currently holds focus.
    pub fn declare(&mut self, rect: Rect, mask: InputMask, trigger: Trigger<M>) -> (focused: bool)
        requires
            old(self).wf(),
            rect.edges_fit(),
        ensures
            final(self).wf(),
            final(self).spec_focus() == old(self).spec_focus(),
            final(self).spec_captured() == old(self).spec_captured(),
            final(self).spec_ignoring() == old(self).spec_ignoring(),
            final(self).spec_scroll() == old(self).spec_scroll(),
            final(self).spec_viewport() == old(self).spec_viewport(),
            old(self).spec_ignoring() ==> {
                &&& !focused
                &&& final(self).spec_items() == old(self).spec_items()
                &&& final(self).spec_focusable() == old(self).spec_focusable()
            },
            !old(self).spec_ignoring() ==> {
                &&& final(self).spec_items() == old(self).spec_items().push(
                    Interaction { rect, mask, trigger },
                )
                &&& focused == (mask.has(InputMask(2)) && old(self).spec_focusable()
                    == old(self).spec_focus())
                &&& final(self).spec_focusable() == old(self).spec_focusable() + if mask.has(
                    InputMask(2),
                ) {
                    1int
                } else {
                    0int
                }
            },
            old(self).counted() ==> final(self).counted(),
    {
        if self.ignoring {
            return false;
        }
        let focusable = mask.contains(InputMask::focus());
        self.items.push(Interaction { rect, mask, trigger });
        let mut focused = false;
        let collected = self.items.len();
        if focusable {
            assert(self.focusable < collected);
            let mine = self.focusable;
            self.focusable = self.focusable + 1;
            focused = mine == self.focus;
        }
        proof {
            let items = self.items@;
            assert(items.drop_last() =~= old(self).items@);
            assert(rects_fit(items)) by {
                assert forall|i: int| 0 <= i < items.len() implies (#[trigger] items[i]).rect.edges_fit() by {
                    if i < items.len() - 1 {
                        assert(items[i] == old(self).items@[i]);
                    }
                }
            }
        }
        focused
    }

    /// Discards everything declared so far: this view is the only thing
    /// reachable while it is present.
    ///
    /// A dialog drawn over a list shares the list's tree, so without this the
    /// side buttons would walk out of the dialog and into the rows behind it.
    /// Called by a capturing view *before* it declares its own regions.
    ///
    /// `preferred_focus` is where focus should sit while the view is up: a
    /// picker opens on the value already chosen.
    pub fn capture(&mut self, preferred_focus: usize)
        ensures
            final(self).wf(),
            final(self).counted(),
            final(self).spec_items().len() == 0,
            final(self).spec_focusable() == 0,
            final(self).spec_captured() == Some(preferred_focus),
            !final(self).spec_ignoring(),
            final(self).spec_focus() == old(self).spec_focus(),
            final(self).spec_scroll() == old(self).spec_scroll(),
            final(self).spec_viewport() == old(self).spec_viewport(),
            captured_by(*old(self), *final(self), preferred_focus),
    {
        self.items.clear();
        self.focusable = 0;
        self.captured = Some(preferred_focus);
        self.ignoring = false;
    }

    /// Starts the walk with a scroll offset the scroll view should apply.
    pub fn scrolled(self, offset: i32) -> (r: Interactions<M>)
        ensures
            r.spec_scroll() == offset,
            r.spec_items() == self.spec_items(),
            r.spec_focus() == self.spec_focus(),
            r.spec_focusable() == self.spec_focusable(),
            r.spec_captured() == self.spec_captured(),
            r.spec_ignoring() == self.spec_ignoring(),
            r.spec_viewport() == self.spec_viewport(),
    {
        let mut r = self;
        r.scroll = offset;
        r
    }

    /// The offset a scroll view should apply to its content.
    pub fn scroll(&self) -> (s: i32)
        ensures
            s == self.spec_scroll(),
    {
        self.scroll
    }

    /// Published by a scroll view: the visible band, and how tall its content
    /// is.
    pub fn set_viewport(&mut self, viewport: Rect, content_height: i32)
        ensures
            final(self).spec_viewport() == Some((viewport, content_height)),
            final(self).spec_items() == old(self).spec_items(),
            final(self).spec_focus() == old(self).spec_focus(),
            final(self).spec_focusable() == old(self).spec_focusable(),
            final(self).spec_captured() == old(self).spec_captured(),
            final(self).spec_ignoring() == old(self).spec_ignoring(),
            final(self).spec_scroll() == old(self).spec_scroll(),
    {
        self.viewport = Some((viewport, content_height));
    }

    pub fn viewport(&self) -> (v: Option<(Rect, i32)>)
        ensures
            v == self.spec_viewport(),
    {
        self.viewport
    }

    /// How many interactions have been declared so far. A container uses this
    /// to find the ones its own child added.
    pub fn len(&self) -> (n: usize)
        ensures
            n == self.spec_items().len(),
    {
        self.items.len()
    }

    pub fn is_empty(&self) -> (b: bool)
        ensures
            b == (self.spec_items().len() == 0),
    {
        self.items.len() == 0
    }

    /// Withdraws `mask` from every interaction declared since `from` that falls
    /// outside `visible`. A scrolled-away control keeps its focus stop, so it
    /// can still be reached, but stops accepting touches aimed at whatever now
    /// occupies that part of the screen.
    pub fn restrict_outside(&mut self, from: usize, visible: Rect, mask: InputMask)
        requires
            old(self).wf(),
            visible.edges_fit(),
        ensures
            final(self).wf(),
            final(self).spec_items().len() == old(self).spec_items().len(),
            forall|i: int|
                0 <= i < old(self).spec_items().len() ==> {
                    let before = #[trigger] old(self).spec_items()[i];
                    let after = final(self).spec_items()[i];
                    &&& after.rect == before.rect
                    &&& after.trigger == before.trigger
                    &&& after.mask == if i >= from && !before.rect.spec_intersects(visible) {
                        InputMask(before.mask.0 & !mask.0)
                    } else {
                        before.mask
                    }
                },
            final(self).spec_focus() == old(self).spec_focus(),
            final(self).spec_focusable() == old(self).spec_focusable(),
            final(self).spec_captured() == old(self).spec_captured(),
            final(self).spec_ignoring() == old(self).spec_ignoring(),
            final(self).spec_scroll() == old(self).spec_scroll(),
            final(self).spec_viewport() == old(self).spec_viewport(),
            mask.0 & 2 == 0 && old(self).counted() ==> final(self).counted(),
    {
        let mut i = from;
        while i < self.items.len()
            invariant
                from <= i,
                self.items@.len() == old(self).items@.len(),
                self.focus == old(self).focus,
                self.focusable == old(self).focusable,
                self.captured == old(self).captured,
                self.ignoring == old(self).ignoring,
                self.scroll == old(self).scroll,
                self.viewport == old(self).viewport,
                visible.edges_fit(),
                rects_fit(old(self).items@),
                forall|j: int|
                    0 <= j < self.items@.len() ==> {
                        let before = #[trigger] old(self).items@[j];
                        let after = self.items@[j];
                        &&& after.rect == before.rect
                        &&& after.trigger == before.trigger
                        &&& after.mask == if from <= j < i && !before.rect.spec_intersects(
                            visible,
                        ) {
                            InputMask(before.mask.0 & !mask.0)
                        } else {
                            before.mask
                        }
                    },
            decreases self.items@.len() - i,
        {
            assert(old(self).items@[i as int].rect.edges_fit());
            let ghost prev = self.items@;
            assert(forall|j: int| 0 <= j < prev.len() ==> {
                let before = #[trigger] old(self).items@[j];
                let after = prev[j];
                &&& after.rect == before.rect
                &&& after.trigger == before.trigger
                &&& after.mask == if from <= j < i && !before.rect.spec_intersects(visible) {
                    InputMask(before.mask.0 & !mask.0)
                } else {
                    before.mask
                }
            });
            let hidden = !self.items[i].rect.intersects(visible);
            if hidden {
                let narrowed = self.items[i].mask.without(mask);
                self.items[i].mask = narrowed;
            }
            assert forall|j: int| 0 <= j < self.items@.len() && j != i implies self.items@[j] == prev[j] by {}
            assert(prev[i as int] == old(self).items@[i as int]);
            assert(self.items@[i as int].rect == prev[i as int].rect);
            assert(self.items@[i as int].trigger == prev[i as int].trigger);
            assert(hidden == !old(self).items@[i as int].rect.spec_intersects(visible));
            assert(self.items@[i as int].mask == if hidden {
                InputMask(prev[i as int].mask.0 & !mask.0)
            } else {
                prev[i as int].mask
            });
            assert forall|j: int| 0 <= j < self.items@.len() implies {
                let before = #[trigger] old(self).items@[j];
                let after = self.items@[j];
                &&& after.rect == before.rect
                &&& after.trigger == before.trigger
                &&& after.mask == if from <= j < i + 1 && !before.rect.spec_intersects(visible) {
                    InputMask(before.mask.0 & !mask.0)
                } else {
                    before.mask
                }
            } by {
                let before = old(self).items@[j];
                if j != i {
                    assert(self.items@[j] == prev[j]);
                    assert(prev[j].rect == before.rect);
                    assert(prev[j].trigger == before.trigger);
                    assert(prev[j].mask == if from <= j < i && !before.rect.spec_intersects(visible) {
                        InputMask(before.mask.0 & !mask.0)
                    } else {
                        before.mask
                    });
                }
            }
            i = i + 1;
        }
        proof {
            assert forall|j: int| 0 <= j < self.items@.len() implies (#[trigger] self.items@[j]).rect.edges_fit() by {
                assert(self.items@[j].rect == old(self).items@[j].rect);
            }
            if mask.0 & 2 == 0 {
                assert forall|j: int| 0 <= j < self.items@.len() implies (#[trigger] self.items@[j]).mask.has(
                    InputMask(2),
                ) == old(self).items@[j].mask.has(InputMask(2)) by {
                    let (k, b) = (mask.0, old(self).items@[j].mask.0);
                    assert(k & 2 == 0 ==> ((b & !k) & 2 == 2 <==> b & 2 == 2)) by (bit_vector);
                }
                lemma_count_same_focus(old(self).items@, self.items@);
            }
        }
    }

    /// The focus index a capturing view asked for, or `None` if none captured.
    pub fn captured_focus(&self) -> (c: Option<usize>)
        ensures
            c == self.spec_captured(),
    {
        self.captured
    }

    /// Rect of the focusable interaction at `focus`, in tree order. The
    /// runtime scrolls to bring this into view.
    pub fn focused_rect(&self, focus: usize) -> (r: Option<Rect>)
        ensures
            r == nth_focusable_rect(self.spec_items(), focus as int),
    {
        let mut i: usize = 0;
        let mut remaining: usize = focus;
        assert(self.items@.skip(0) =~= self.items@);
        while i < self.items.len()
            invariant
                0 <= i <= self.items@.len(),
                remaining <= focus,
                nth_focusable_rect(self.items@.skip(i as int), remaining as int)
                    == nth_focusable_rect(self.items@, focus as int),
            decreases self.items@.len() - i,
        {
            proof {
                let tail = self.items@.skip(i as int);
                assert(tail.drop_first() =~= self.items@.skip(i + 1));
            }
            if self.items[i].mask.contains(InputMask::focus()) {
                if remaining == 0 {
                    return Some(self.items[i].rect);
                }
                remaining = remaining - 1;
            }
            i = i + 1;
        }
        assert(self.items@.skip(i as int).len() == 0);
        None
    }

    pub fn focusable_count(&self) -> (n: usize)
        ensures
            n == self.spec_focusable(),
    {
        self.focusable
    }

    pub fn items(&self) -> (s: &[Interaction<M>])
        ensures
            s@ == self.spec_items(),
    {
        self.items.as_slice()
    }

    /// A collector for a sub-component, positioned so its focus numbering
    /// continues this one's: a mapped component's controls therefore sit in
    /// the parent's focus order exactly where they appear in the tree.
    pub fn child<N>(&self) -> (r: Interactions<N>)
        ensures
            r.wf(),
            r.counted(),
            r.spec_items().len() == 0,
            r.spec_focus() == if self.spec_focus() >= self.spec_focusable() {
                self.spec_focus() - self.spec_focusable()
            } else {
                0
            },
            r.spec_focusable() == 0,
            !r.spec_ignoring(),
    {
        Interactions::new(self.focus.saturating_sub(self.focusable))
    }

    /// Folds a sub-component's interactions in, translating its messages
    /// through `conversion`. Every item the component collected is added, in
    /// order, and its focus count with them.
    ///
    /// A value or step control keeps its scale, and its builder becomes a
    /// `Mapped` of the component's builder and `conversion`: for every value it
    /// gives a conversion of what the component's builder gives for that value.
    pub fn absorb<N: 'static>(&mut self, inner: Interactions<N>, conversion: Rc<Box<dyn Convert<N, M>>>)
        where
            M: 'static,
        requires
            old(self).wf(),
            inner.wf(),
            old(self).spec_items().len() + inner.spec_items().len() <= usize::MAX,
        ensures
            final(self).wf(),
            final(self).spec_focus() == old(self).spec_focus(),
            final(self).spec_captured() == old(self).spec_captured(),
            final(self).spec_ignoring() == old(self).spec_ignoring(),
            final(self).spec_scroll() == old(self).spec_scroll(),
            final(self).spec_viewport() == old(self).spec_viewport(),
            final(self).spec_items().len() == old(self).spec_items().len() + inner.spec_items().len(),
            final(self).spec_items().take(old(self).spec_items().len() as int) == old(self).spec_items(),
            forall|k: int|
                0 <= k < inner.spec_items().len() ==> absorbed(
                    #[trigger] inner.spec_items()[k],
                    final(self).spec_items()[old(self).spec_items().len() + k],
                    conversion,
                ),
            final(self).spec_focusable() == old(self).spec_focusable() + inner.spec_focusable(),
            old(self).counted() && inner.counted() ==> final(self).counted(),
    {
        let ghost start = self.items@;
        let ghost from = inner.items@;
        let added = inner.focusable;
        let mut pending = inner.items;
        let mut taken: usize = 0;
        while pending.len() > 0
            invariant
                pending@ == from.skip(taken as int),
                taken <= from.len(),
                self.items@.len() == start.len() + taken,
                self.items@.take(start.len() as int) == start,
                start.len() + from.len() <= usize::MAX,
                forall|k: int|
                    0 <= k < taken ==> absorbed(
                        #[trigger] from[k],
                        self.items@[start.len() + k],
                        conversion,
                    ),
                rects_fit(start),
                rects_fit(from),
                count_focusable(self.items@) == count_focusable(start) + count_focusable(
                    from.take(taken as int),
                ),
                self.focus == old(self).focus,
                self.focusable == old(self).focusable,
                self.captured == old(self).captured,
                self.ignoring == old(self).ignoring,
                self.scroll == old(self).scroll,
                self.viewport == old(self).viewport,
            decreases pending@.len(),
        {
            let item = pending.remove(0);
            let trigger = absorb_trigger(item.trigger, &conversion);
            let ghost before = self.items@;
            let next = Interaction { rect: item.rect, mask: item.mask, trigger };
            self.items.push(next);
            proof {
                assert(from[taken as int] == item);
                lemma_count_push(before, next);
                lemma_count_push(from.take(taken as int), item);
                assert(from.take(taken as int).push(item) =~= from.take(taken + 1));
                assert(pending@ =~= from.skip(taken + 1));
                assert(self.items@.take(start.len() as int) =~= start);
                assert forall|k: int| 0 <= k < taken + 1 implies absorbed(
                    #[trigger] from[k],
                    self.items@[start.len() + k],
                    conversion,
                ) by {
                    if k < taken {
                        assert(self.items@[start.len() + k] == before[start.len() + k]);
                    }
                }
            }
            taken = taken + 1;
        }
        proof {
            assert(from.take(taken as int) =~= from);
            let items = self.items@;
            assert forall|i: int| 0 <= i < items.len() implies (#[trigger] items[i]).rect.edges_fit() by {
                if i < start.len() {
                    assert(items[i] == start[i]);
                } else {
                    assert(absorbed(from[i - start.len()], items[start.len() + (i - start.len())], conversion));
                }
            }
        }
        self.focusable = self.focusable + added;
    }
}

/// The count of focusable items grows by one exactly for a focusable push.
pub proof fn lemma_count_push<M>(items: Seq<Interaction<M>>, item: Interaction<M>)
    ensures
        count_focusable(items.push(item)) == count_focusable(items) + if item.mask.has(
            InputMask(2),
        ) {
            1nat
        } else {
            0nat
        },
{
    assert(items.push(item).drop_last() =~= items);
}

/// Two lists that agree, item by item, on which items take focus have the
/// same focus count.
pub proof fn lemma_count_same_focus<M>(a: Seq<Interaction<M>>, b: Seq<Interaction<M>>)
    requires
        a.len() == b.len(),
        forall|j: int| 0 <= j < a.len() ==> (#[trigger] b[j]).mask.has(InputMask(2)) == a[j].mask.has(InputMask(2)),
    ensures
        count_focusable(a) == count_focusable(b),
    decreases a.len(),
{
    if a.len() > 0 {
        assert forall|j: int| 0 <= j < a.drop_last().len() implies (#[trigger] b.drop_last()[j]).mask.has(
            InputMask(2),
        ) == a.drop_last()[j].mask.has(InputMask(2)) by {
            assert(b[j].mask.has(InputMask(2)) == a[j].mask.has(InputMask(2)));
        }
        lemma_count_same_focus(a.drop_last(), b.drop_last());
        assert(b[a.len() - 1].mask.has(InputMask(2)) == a[a.len() - 1].mask.has(InputMask(2)));
    }
}

/// `states` are a collector before and after each of `items` is declared in
/// turn.
pub open spec fn declared_walk<M>(states: Seq<Interactions<M>>, items: Seq<Interaction<M>>) -> bool {
    &&& states.len() == items.len() + 1
    &&& forall|i: int| 0 <= i < items.len() ==> declared_one(#[trigger] states[i], states[i + 1], items[i])
}

/// `after` is `before` once a view captured input, preferring focus at
/// `preferred`: everything collected so far dropped, declarations taken again.
pub open spec fn captured_by<M>(before: Interactions<M>, after: Interactions<M>, preferred: usize) -> bool {
    &&& after.spec_items().len() == 0
    &&& after.spec_focusable() == 0
    &&& after.spec_captured() == Some(preferred)
    &&& !after.spec_ignoring()
    &&& after.spec_focus() == before.spec_focus()
}

/// A walk of declarations: a collector that ignores them keeps nothing of the
/// walk; any other keeps every declaration, in order, and its focus count
/// grows by exactly the focusable ones.
pub proof fn lemma_walk_collects<M>(states: Seq<Interactions<M>>, items: Seq<Interaction<M>>)
    requires
        declared_walk(states, items),
    ensures
        states.last().spec_ignoring() == states[0].spec_ignoring(),
        states.last().spec_focus() == states[0].spec_focus(),
        states.last().spec_captured() == states[0].spec_captured(),
        states[0].spec_ignoring() ==> states.last().spec_items() == states[0].spec_items()
            && states.last().spec_focusable() == states[0].spec_focusable(),
        !states[0].spec_ignoring() ==> states.last().spec_items() == states[0].spec_items() + items
            && states.last().spec_focusable() == states[0].spec_focusable() + count_focusable(items),
        states[0].counted() ==> states.last().counted(),
    decreases items.len(),
{
    if items.len() > 0 {
        let n = items.len() - 1;
        let front = states.drop_last();
        assert(declared_walk(front, items.drop_last())) by {
            assert forall|i: int| 0 <= i < items.drop_last().len() implies declared_one(
                #[trigger] front[i],
                front[i + 1],
                items.drop_last()[i],
            ) by {
                assert(declared_one(states[i], states[i + 1], items[i]));
            }
        }
        lemma_walk_collects(front, items.drop_last());
        assert(declared_one(states[n], states[n + 1], items[n]));
        assert(front.last() == states[n]);
        lemma_count_push(states[n].spec_items(), items[n]);
        lemma_count_push(items.drop_last(), items[n]);
        assert(items.drop_last().push(items[n]) =~= items);
        if !states[0].spec_ignoring() {
            assert(states[0].spec_items() + items.drop_last() + seq![items[n]] =~= states[0].spec_items() + items);
        }
    } else {
        assert(states.last() == states[0]);
        assert(states[0].spec_items() + items =~= states[0].spec_items());
    }
}

/// A capturing pass keeps only what the capturing view reaches: whatever was
/// declared behind it is dropped, and the collector ends holding exactly the
/// declarations made after the capture, counted exactly, with the focus the
/// view asked for on record.
pub proof fn lemma_capture_keeps_only_what_follows<M>(
    behind: Seq<Interactions<M>>,
    behind_items: Seq<Interaction<M>>,
    ahead: Seq<Interactions<M>>,
    ahead_items: Seq<Interaction<M>>,
    preferred: usize,
)
    requires
        declared_walk(behind, behind_items),
        declared_walk(ahead, ahead_items),
        captured_by(behind.last(), ahead[0], preferred),
    ensures
        ahead.last().spec_items() == ahead_items,
        ahead.last().spec_focusable() == count_focusable(ahead_items),
        ahead.last().counted(),
        ahead.last().spec_captured() == Some(preferred),
        ahead.last().spec_focus() == behind[0].spec_focus(),
{
    lemma_walk_collects(behind, behind_items);
    lemma_walk_collects(ahead, ahead_items);
    assert(ahead[0].spec_items() + ahead_items =~= ahead_items);
}

/// Appending items never changes which rect is the `n`th focusable one, once
/// there are more than `n` focusable items.
pub proof fn lemma_nth_focusable_prefix<M>(items: Seq<Interaction<M>>, more: Seq<Interaction<M>>, n: int)
    requires
        0 <= n < count_focusable(items),
    ensures
        nth_focusable_rect(items + more, n) == nth_focusable_rect(items, n),
        nth_focusable_rect(items, n) is Some,
    decreases items.len(),
{
    lemma_count_front(items);
    let rest = items.drop_first();
    assert((items + more).drop_first() =~= rest + more);
    if items[0].mask.has(InputMask(2)) {
        if n > 0 {
            lemma_nth_focusable_prefix(rest, more, n - 1);
        }
    } else {
        lemma_nth_focusable_prefix(rest, more, n);
    }
}

/// Counting focusable items from the front agrees with counting from the back.
pub proof fn lemma_count_front<M>(items: Seq<Interaction<M>>)
    requires
        items.len() > 0,
    ensures
        count_focusable(items) == count_focusable(items.drop_first()) + if items[0].mask.has(
            InputMask(2),
        ) {
            1nat
        } else {
            0nat
        },
    decreases items.len(),
{
    if items.len() > 1 {
        lemma_count_front(items.drop_last());
        assert(items.drop_last().drop_first() =~= items.drop_first().drop_last());
        assert(items.drop_first().last() == items.last());
        assert(items.drop_last()[0] == items[0]);
        let f = items.drop_first();
        assert(count_focusable(f) == count_focusable(f.drop_last()) + if f.last().mask.has(InputMask(2)) { 1nat } else { 0nat });
        assert(count_focusable(items) == count_focusable(items.drop_last()) + if items.last().mask.has(InputMask(2)) { 1nat } else { 0nat });
    } else {
        assert(items.drop_last().len() == 0);
        assert(items.drop_first().len() == 0);
        assert(items.last() == items[0]);
        assert(count_focusable(items) == count_focusable(items.drop_last()) + if items.last().mask.has(InputMask(2)) { 1nat } else { 0nat });
    }
}

/// The item that is `n`th among the focusable ones, when it is the last
/// declared, is found by counting.
pub proof fn lemma_nth_focusable_last<M>(items: Seq<Interaction<M>>, item: Interaction<M>)
    requires
        item.mask.has(InputMask(2)),
    ensures
        nth_focusable_rect(items.push(item), count_focusable(items) as int) == Some(item.rect),
    decreases items.len(),
{
    if items.len() == 0 {
        assert(items.push(item)[0] == item);
    } else {
        lemma_count_front(items);
        let rest = items.drop_first();
        assert(items.push(item).drop_first() =~= rest.push(item));
        lemma_nth_focusable_last(rest, item);
    }
}

/// The control `declare` tells it holds focus is the very one the runtime
/// later finds at the focus index: whatever is declared after it, the
/// `focus`th focusable rect is the rect of the declaration that answered
/// `true`.
pub proof fn lemma_focus_agrees<M>(
    before: Seq<Interaction<M>>,
    item: Interaction<M>,
    after: Seq<Interaction<M>>,
    focus: int,
)
    requires
        item.mask.has(InputMask(2)),
        count_focusable(before) == focus,
    ensures
        nth_focusable_rect(before.push(item) + after, focus) == Some(item.rect),
{
    lemma_nth_focusable_last(before, item);
    lemma_count_push(before, item);
    lemma_nth_focusable_prefix(before.push(item), after, focus);
}

/// What a tree is laid out against this frame: the theme's geometry, the
/// screen, the host's font engine, and its translations.
pub struct Env<'a> {
    pub theme: Theme,
    pub screen: Size,
    pub fonts: &'a dyn TextMetrics,
    pub strings: &'a dyn Translations,
}

impl<'a> Env<'a> {
    /// The theme's metrics and the screen are in layout range, so no layout
    /// sum overflows.
    pub open spec fn wf(&self) -> bool {
        &&& self.theme.wf()
        &&& size_in_range(self.screen)
    }

    /// Whether a tree can be laid out against this environment, so a host
    /// can test one before handing it over.
    pub fn in_range(&self) -> (b: bool)
        ensures
            b == self.wf(),
    {
        self.theme.in_range() && 0 <= self.screen.width && self.screen.width <= 0x3fff_ffff && 0
            <= self.screen.height && self.screen.height <= 0x3fff_ffff
    }
}

/// Something on screen: it sizes itself within what it is offered, declares
/// the regions it owns, and draws.
///
/// `interactions` runs before `render` in a frame, so each widget learns
/// whether it holds focus and can draw itself selected.
pub trait Widget<M> {
    /// The size the last `measure` settled on.
    spec fn spec_size(&self) -> Size;

    /// Whether this widget absorbs the space its siblings leave.
    spec fn spec_flexible(&self) -> bool;

    /// Whether this widget's extent across a stack counts towards the
    /// stack's.
    spec fn spec_contributes(&self) -> bool;

    /// The message a tap anywhere on this widget sends, for a widget that is
    /// one tap target; `None` for any other.
    open spec fn spec_tap(&self) -> Option<M> {
        None
    }

    /// The text this widget shows, for a widget that is one piece of text;
    /// `None` for any other.
    open spec fn spec_text(&self) -> Option<Seq<char>> {
        None
    }

    /// Sizes this widget within `available`. Measuring changes neither what
    /// the widget shows nor what a tap on it sends.
    fn measure(&mut self, available: Size, env: &Env)
        requires
            env.wf(),
            size_in_range(available),
        ensures
            size_in_range(final(self).spec_size()),
            final(self).spec_flexible() == old(self).spec_flexible(),
            final(self).spec_contributes() == old(self).spec_contributes(),
            final(self).spec_tap() == old(self).spec_tap(),
            final(self).spec_text() == old(self).spec_text(),
    ;

    fn size(&self) -> (s: Size)
        ensures
            s == self.spec_size(),
    ;

    /// Draws at `origin`, adding to what is already drawn.
    fn render(&self, origin: Point, out: &mut Renderer, env: &Env)
        requires
            env.wf(),
            rect_in_range(Rect { origin, size: self.spec_size() }),
        ensures
            final(out).screen == old(out).screen,
            final(out).title == old(out).title,
            old(out).ops@.len() <= final(out).ops@.len(),
            final(out).ops@.take(old(out).ops@.len() as int) == old(out).ops@,
    ;

    /// Declares the regions this widget owns when drawn at `origin`.
    fn interactions(&mut self, origin: Point, out: &mut Interactions<M>, env: &Env)
        requires
            env.wf(),
            rect_in_range(Rect { origin, size: old(self).spec_size() }),
            old(out).wf(),
        ensures
            final(out).wf(),
            final(self).spec_size() == old(self).spec_size(),
            final(self).spec_flexible() == old(self).spec_flexible(),
            final(self).spec_contributes() == old(self).spec_contributes(),
    ;

    /// Whether this widget absorbs the space its siblings leave.
    fn is_flexible(&self) -> (b: bool)
        ensures
            b == self.spec_flexible(),
    ;

    /// Whether this widget's extent across a stack counts towards the
    /// stack's.
    fn contributes_cross_size(&self) -> (b: bool)
        ensures
            b == self.spec_contributes(),
    ;
}

/// Whether `widget`'s own `render` admits this call: drawn at `origin`,
/// taking the surface behind `out` from its current value to its final one.
pub open spec fn draws<M, W: Widget<M> + ?Sized>(widget: &W, origin: Point, out: &mut Renderer, env: &Env) -> bool {
    call_ensures(W::render, (widget, origin, out, env), ())
}

/// Whether `widget`'s own `measure` admits this call: sizing against
/// `available`, taking the widget from its current value to its final one.
pub open spec fn measures<M, W: Widget<M> + ?Sized>(widget: &mut W, available: Size, env: &Env) -> bool {
    call_ensures(W::measure, (widget, available, env), ())
}

/// Measures `widget` against `available`, as its own `measure` does.
pub fn measure_in<M, W: Widget<M> + ?Sized>(widget: &mut W, available: Size, env: &Env)
    requires
        env.wf(),
        size_in_range(available),
    ensures
        size_in_range(final(widget).spec_size()),
        final(widget).spec_flexible() == old(widget).spec_flexible(),
        final(widget).spec_contributes() == old(widget).spec_contributes(),
        final(widget).spec_tap() == old(widget).spec_tap(),
        final(widget).spec_text() == old(widget).spec_text(),
        exists|moved: &mut W|
            #[trigger] call_ensures(W::measure, (moved, available, env), ()) && measures(moved, available, env)
                && &*moved == &*old(widget) && &*final(moved) == &*final(widget),
{
    widget.measure(available, env);
}

/// Whether `widget`'s own `interactions` admits this call: declaring at
/// `origin`, taking the widget and the collector behind `out` from their
/// current values to their final ones.
pub open spec fn declares<M, W: Widget<M> + ?Sized>(
    widget: &mut W,
    origin: Point,
    out: &mut Interactions<M>,
    env: &Env,
) -> bool {
    call_ensures(W::interactions, (widget, origin, out, env), ())
}

/// `after` is `before` with `item` declared: added, and counted when it can
/// hold focus, unless the collector is ignoring declarations.
pub open spec fn declared_one<M>(before: Interactions<M>, after: Interactions<M>, item: Interaction<M>) -> bool {
    &&& after.spec_focus() == before.spec_focus()
    &&& after.spec_captured() == before.spec_captured()
    &&& after.spec_ignoring() == before.spec_ignoring()
    &&& after.spec_scroll() == before.spec_scroll()
    &&& after.spec_viewport() == before.spec_viewport()
    &&& before.spec_ignoring() ==> after.spec_items() == before.spec_items() && after.spec_focusable()
        == before.spec_focusable()
    &&& !before.spec_ignoring() ==> after.spec_items() == before.spec_items().push(item)
        && after.spec_focusable() == before.spec_focusable() + if item.mask.has(InputMask(2)) {
        1int
    } else {
        0int
    }
}

/// Draws `widget` at `origin`, as its own `render` does.
pub fn draw_in<M, W: Widget<M> + ?Sized>(widget: &W, origin: Point, out: &mut Renderer, env: &Env)
    requires
        env.wf(),
        rect_in_range(Rect { origin, size: widget.spec_size() }),
    ensures
        final(out).screen == old(out).screen,
        final(out).title == old(out).title,
        old(out).ops@.len() <= final(out).ops@.len(),
        final(out).ops@.take(old(out).ops@.len() as int) == old(out).ops@,
        exists|drawn: &mut Renderer|
            #[trigger] call_ensures(W::render, (widget, origin, drawn, env), ()) && draws(widget, origin, drawn, env)
                && *drawn == *old(out) && *final(drawn) == *final(out),
{
    widget.render(origin, out, env);
}

/// Declares `widget`'s regions at `origin`, as its own `interactions` does.
pub fn declare_in<M, W: Widget<M> + ?Sized>(widget: &mut W, origin: Point, out: &mut Interactions<M>, env: &Env)
    requires
        env.wf(),
        rect_in_range(Rect { origin, size: old(widget).spec_size() }),
        old(out).wf(),
    ensures
        final(out).wf(),
        final(widget).spec_size() == old(widget).spec_size(),
        final(widget).spec_flexible() == old(widget).spec_flexible(),
        final(widget).spec_contributes() == old(widget).spec_contributes(),
        exists|moved: &mut W, declared: &mut Interactions<M>|
            #[trigger] call_ensures(W::interactions, (moved, origin, declared, env), ()) && declares(
                moved,
                origin,
                declared,
                env,
            ) && &*moved == &*old(widget) && &*final(moved)
                == &*final(widget) && *declared == *old(out) && *final(declared) == *final(out),
{
    widget.interactions(origin, out, env);
}

/// The rect a widget occupies when drawn at `origin`.
pub fn bounds<M, W: Widget<M> + ?Sized>(widget: &W, origin: Point) -> (r: Rect)
    ensures
        r.origin == origin,
        r.size == widget.spec_size(),
{
    Rect { origin, size: widget.size() }
}
} // verus!
