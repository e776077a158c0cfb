//! A drop-down panel over the current screen.
use vstd::prelude::*;

use crate::geometry::{nonneg, Point, Rect, Size};
use crate::host::{
    coord, coord_limit, extent, in_layout_range, metric_limit, rect_in_range, saturate,
    size_in_range, DrawOp, Renderer, ScreenChrome, ThemeMetric,
};
use crate::view::{declare_in, declared_one, declares, draw_in, draws, Env, InputMask, Interaction, Interactions, Trigger, Widget};

verus! {

/// Thickness of the rule marking the panel's bottom edge.
pub const EDGE_THICKNESS: i32 = 2;

/// How the screen showing below an [`OverlayPanel`] is treated.
#[derive(Copy, Clone, Debug, PartialEq, Eq, Structural)]
pub enum Scrim {
    /// Left exactly as it was.
    Clear,
    /// Darkened, so the panel reads as the foreground. What is behind stays
    /// legible — roughly half its pixels survive.
    Dim,
}

impl Default for Scrim {
    fn default() -> (s: Scrim)
        ensures
            s == Scrim::Clear,
    {
        Scrim::Clear
    }
}

/// The strip below a panel of `measured` on a screen of `screen`, where the
/// screen it dropped over is still showing; `None` once the panel fills the
/// screen.
pub open spec fn spec_below_panel(screen: Size, measured: Size) -> Option<Rect> {
    let height = screen.height - measured.height;
    if height > 0 {
        Some(Rect::spec_new(0, measured.height as int, screen.width as int, height))
    } else {
        None
    }
}

/// `after` is `before` with the dismiss target declared: the strip `below`
/// the panel, tap only, sending a copy of `message` — when there is both a
/// message and such a strip; `before` unchanged otherwise.
pub open spec fn scrim_declared<M: Clone>(
    before: Interactions<M>,
    after: Interactions<M>,
    message: Option<M>,
    below: Option<Rect>,
) -> bool {
    match (message, below) {
        (Some(msg), Some(rect)) => exists|m: M|
            #[trigger] declared_one(
                before,
                after,
                Interaction { rect, mask: InputMask(1), trigger: Trigger::Message(m) },
            ) && cloned(msg, m),
        _ => after == before,
    }
}

/// The root view for a panel that drops over whatever is already on screen.
///
/// Unlike a navigation screen this deliberately leaves the framebuffer below
/// it intact, so the screen it opened over stays visible and a tap down there
/// can dismiss it. The owning screen must therefore **not** clear before
/// rendering.
///
/// The height is whatever the content needs, so the size after measuring
/// gives the dismiss threshold: a touch at or below the panel's height landed
/// on the content showing through.
#[verifier::reject_recursive_types(M)]
pub struct OverlayPanel<M, C> {
    content: C,
    messages: std::marker::PhantomData<M>,
    /// `None` defers to the screen's localized title.
    title: Option<String>,
    /// Vertical inset above and below the content, inside the band.
    padding: i32,
    /// Sent when the preserved screen below the panel is tapped.
    scrim_tap: Option<M>,
    /// How that preserved screen is painted.
    scrim: Scrim,
    /// Set during `measure`; where the content is drawn and hit-tested.
    content_origin: Point,
    measured: Size,
}

impl<M, C: Widget<M>> OverlayPanel<M, C> {
    pub closed spec fn spec_title(&self) -> Option<Seq<char>> {
        match self.title {
            Some(t) => Some(t@),
            None => None,
        }
    }

    pub closed spec fn spec_padding(&self) -> i32 {
        self.padding
    }

    pub closed spec fn spec_scrim_tap(&self) -> Option<M> {
        self.scrim_tap
    }

    pub closed spec fn spec_scrim(&self) -> Scrim {
        self.scrim
    }

    pub closed spec fn spec_content_origin(&self) -> Point {
        self.content_origin
    }

    pub closed spec fn spec_measured(&self) -> Size {
        self.measured
    }

    /// What the panel shows.
    pub closed spec fn spec_content(&self) -> C {
        self.content
    }

    /// The size the content last measured.
    pub closed spec fn spec_content_size(&self) -> Size {
        self.content.spec_size()
    }

    /// Where the content is drawn and hit-tested when the panel is drawn at
    /// `origin`, or `None` when that falls outside layout range.
    pub open spec fn spec_content_at(&self, origin: Point) -> Option<Point> {
        let x = origin.x + self.spec_content_origin().x;
        let y = origin.y + self.spec_content_origin().y;
        let at = Point { x: x as i32, y: y as i32 };
        if coord(x) && coord(y) && rect_in_range(Rect { origin: at, size: self.spec_content_size() }) {
            Some(at)
        } else {
            None
        }
    }

    /// Where the content is drawn and hit-tested when the panel is drawn at
    /// `origin`, or `None` when that falls outside layout range.
    fn content_at(&self, origin: Point) -> (p: Option<Point>)
        ensures
            p == self.spec_content_at(origin),
    {
        let placed_x = origin.x as i64 + self.content_origin.x as i64;
        let placed_y = origin.y as i64 + self.content_origin.y as i64;
        if -0x3fff_ffff <= placed_x && placed_x <= 0x3fff_ffff && -0x3fff_ffff <= placed_y && placed_y
            <= 0x3fff_ffff {
            let at = Point::new(placed_x as i32, placed_y as i32);
            if in_layout_range(Rect { origin: at, size: self.content.size() }) {
                return Some(at);
            }
        }
        None
    }

    pub fn new(content: C) -> (p: OverlayPanel<M, C>)
        ensures
            p.spec_content() == content,
            p.spec_title() is None,
            p.spec_padding() == 0,
            p.spec_scrim_tap() is None,
            p.spec_scrim() == Scrim::Clear,
            p.spec_content_origin() == (Point { x: 0, y: 0 }),
            p.spec_measured() == Size::zero_spec(),
    {
        OverlayPanel {
            content,
            messages: std::marker::PhantomData,
            title: None,
            padding: 0,
            scrim_tap: None,
            scrim: Scrim::Clear,
            content_origin: Point::origin(),
            measured: Size::zero(),
        }
    }

    /// Dismisses on a tap below the panel, where the screen it dropped over is
    /// still showing — the drop-down equivalent of a modal scrim. Declared as
    /// an ordinary interaction, so the runtime routes it like any other control.
    pub fn on_scrim_tap(self, message: M) -> (p: OverlayPanel<M, C>)
        ensures
            p.spec_content() == self.spec_content(),
            p.spec_title() == self.spec_title(),
            p.spec_scrim_tap() == Some(message),
            p.spec_scrim() == self.spec_scrim(),
            p.spec_measured() == self.spec_measured(),
    {
        let mut p = self;
        p.scrim_tap = Some(message);
        p
    }

    /// Dims the screen showing below the panel, so the panel reads as the
    /// foreground without its context being repainted or hidden.
    pub fn scrim(self, scrim: Scrim) -> (p: OverlayPanel<M, C>)
        ensures
            p.spec_content() == self.spec_content(),
            p.spec_title() == self.spec_title(),
            p.spec_scrim_tap() == self.spec_scrim_tap(),
            p.spec_scrim() == scrim,
            p.spec_measured() == self.spec_measured(),
    {
        let mut p = self;
        p.scrim = scrim;
        p
    }

    /// Overrides the header title. Prefer the screen's own, already
    /// translated, title.
    pub fn title(self, title: &str) -> (p: OverlayPanel<M, C>)
        ensures
            p.spec_content() == self.spec_content(),
            p.spec_title() == Some(title@),
            p.spec_scrim_tap() == self.spec_scrim_tap(),
            p.spec_scrim() == self.spec_scrim(),
            p.spec_measured() == self.spec_measured(),
    {
        let mut p = self;
        p.title = Some(String::from_str(title));
        p
    }

    /// Whether rendering dims the screen below: it is asked to, and some of
    /// that screen still shows.
    pub open spec fn dims_below(&self, screen: Size) -> bool {
        self.spec_scrim() == Scrim::Dim && spec_below_panel(screen, self.spec_measured()) is Some
    }

    /// How many drawing calls the dimming takes.
    pub open spec fn dim_ops(&self, screen: Size) -> int {
        if self.dims_below(screen) {
            1
        } else {
            0
        }
    }

    /// The strip below the panel, where the screen it dropped over still
    /// shows. Both the dimming and the dismiss target come from here, so the
    /// region a tap closes is by construction the region that looks tappable.
    pub fn below_panel(&self, screen: Size) -> (r: Option<Rect>)
        requires
            size_in_range(screen),
            size_in_range(self.spec_measured()),
        ensures
            r == spec_below_panel(screen, self.spec_measured()),
    {
        let height = screen.height - self.measured.height;
        if height > 0 {
            Some(Rect::new(0, self.measured.height, screen.width, height))
        } else {
            None
        }
    }
}

impl<M: Clone, C: Widget<M>> Widget<M> for OverlayPanel<M, C> {
    open spec fn spec_size(&self) -> Size {
        self.spec_measured()
    }

    open spec fn spec_flexible(&self) -> bool {
        false
    }

    open spec fn spec_contributes(&self) -> bool {
        true
    }

    fn is_flexible(&self) -> (b: bool) {
        false
    }

    fn contributes_cross_size(&self) -> (b: bool) {
        true
    }

    /// The full screen width, as tall as the header, the padded content and
    /// nothing more — never taller than the screen. A drop-down grows to fit
    /// rather than scrolling.
    fn measure(&mut self, available: Size, env: &Env)
        ensures
            final(self).spec_padding() == env.theme.vertical_spacing,
            final(self).spec_content_origin() == (Point {
                x: env.theme.content_side_padding,
                y: (env.theme.top_padding + env.theme.header_height + env.theme.vertical_spacing) as i32,
            }),
            final(self).spec_measured() == (Size {
                width: env.screen.width,
                height: vstd::math::min(
                    saturate(
                        final(self).spec_content_origin().y + final(self).spec_content_size().height
                            + env.theme.vertical_spacing,
                    ),
                    env.screen.height as int,
                ) as i32,
            }),
            final(self).spec_title() == old(self).spec_title(),
            final(self).spec_scrim_tap() == old(self).spec_scrim_tap(),
            final(self).spec_scrim() == old(self).spec_scrim(),
    {
        proof {
            env.theme.lemma_fields();
        }
        let screen = env.screen;
        let side = env.theme.metric(ThemeMetric::ContentSidePadding);
        let header = env.theme.metric(ThemeMetric::TopPadding) + env.theme.metric(
            ThemeMetric::HeaderHeight,
        );
        self.padding = env.theme.metric(ThemeMetric::VerticalSpacing);

        self.content_origin = Point::new(side, header + self.padding);
        self.content.measure(Size::new(screen.width - side * 2, screen.height - header), env);

        let total = self.content_origin.y + self.content.size().height + self.padding;
        let height = if total > 0x3fff_ffff {
            0x3fff_ffff
        } else {
            total
        };
        let clipped = if height < screen.height {
            height
        } else {
            screen.height
        };
        self.measured = Size::new(screen.width, clipped);
    }

    fn size(&self) -> (s: Size) {
        self.measured
    }

    /// Dims the screen below first, clears only the band, draws the header and
    /// the content, and finishes with a solid rule along the bottom edge.
    fn render(&self, origin: Point, out: &mut Renderer, env: &Env)
        ensures
            self.dims_below(env.screen) ==> final(out).ops@[old(out).ops@.len() as int]
                == (DrawOp::Scrim { rect: spec_below_panel(env.screen, self.spec_measured())->0 }),
            final(out).ops@[old(out).ops@.len() + self.dim_ops(env.screen)] == (DrawOp::FillRect {
                rect: Rect::spec_new(
                    0,
                    0,
                    self.spec_measured().width as int,
                    self.spec_measured().height as int,
                ),
                black: false,
            }),
            final(out).ops@[old(out).ops@.len() + self.dim_ops(env.screen) + 1] matches DrawOp::Header {
                title: Some(t),
                subtitle: None,
            } && t@ == match self.spec_title() {
                Some(title) => title,
                None => old(out).title@,
            },
            final(out).screen == old(out).screen,
            final(out).title == old(out).title,
            match self.spec_content_at(origin) {
                Some(at) => exists|drawn: &mut Renderer|
                    #[trigger] draws(&self.spec_content(), at, drawn, env) && drawn.screen
                        == old(out).screen && drawn.title == old(out).title && drawn.ops@ == final(out).ops@.take(old(out).ops@.len() + self.dim_ops(env.screen) + 2) && final(drawn).screen
                        == old(out).screen && final(drawn).title == old(out).title && final(drawn).ops@
                        == final(out).ops@.drop_last(),
                None => final(out).ops@.len() == old(out).ops@.len() + self.dim_ops(env.screen) + 3,
            },
            final(out).ops@.last() == (DrawOp::FillRect {
                rect: Rect::spec_new(
                    0,
                    self.spec_measured().height - EDGE_THICKNESS,
                    self.spec_measured().width as int,
                    EDGE_THICKNESS as int,
                ),
                black: true,
            }),
    {
        if self.scrim == Scrim::Dim {
            match self.below_panel(env.screen) {
                Some(below) => out.scrim(below),
                None => {},
            }
        }
        let ghost dimmed = out.ops@;
        proof {
            if self.dims_below(env.screen) {
                assert(dimmed == old(out).ops@.push(
                    DrawOp::Scrim { rect: spec_below_panel(env.screen, self.spec_measured())->0 },
                ));
            } else {
                assert(dimmed == old(out).ops@);
            }
        }
        out.fill_rect(Rect::new(0, 0, self.measured.width, self.measured.height), false);
        let ghost filled = out.ops@;
        match &self.title {
            Some(title) => ScreenChrome::draw_header(out, title.as_str()),
            None => ScreenChrome::draw_screen_header(out),
        }
        let ghost headed = out.ops@;
        match self.content_at(origin) {
            Some(at) => {
                draw_in(&self.content, at, out, env);
                assert(self.spec_content() == self.content);
                let ghost drawn = out.ops@;
                out.fill_rect(
                    Rect::new(
                        0,
                        self.measured.height - EDGE_THICKNESS,
                        self.measured.width,
                        EDGE_THICKNESS,
                    ),
                    true,
                );
                proof {
                    assert(drawn.take(headed.len() as int) == headed);
                    assert(out.ops@.take(drawn.len() as int) =~= drawn);
                    assert(headed.take(dimmed.len() as int) =~= dimmed);
                    assert(headed.take(filled.len() as int) == filled);
                    assert(headed[dimmed.len() as int] == filled[dimmed.len() as int]);
                    assert(out.ops@[dimmed.len() as int] == headed[dimmed.len() as int]);
                    assert(dimmed.len() == old(out).ops@.len() + self.dim_ops(env.screen));
                    if self.dims_below(env.screen) {
                        assert(out.ops@[old(out).ops@.len() as int] == dimmed[old(out).ops@.len() as int]);
                    }
                    assert(headed.len() == dimmed.len() + 2);
                    assert(out.ops@[dimmed.len() + 1int] == headed[dimmed.len() + 1int]);
                    assert(dimmed.take(old(out).ops@.len() as int) =~= old(out).ops@);
                    assert(out.ops@.take(old(out).ops@.len() as int) =~= old(out).ops@);
                    assert(out.ops@.drop_last() =~= drawn);
                    assert(out.ops@.take(headed.len() as int) =~= headed);
                }
                return ;
            },
            None => {},
        }
        let ghost drawn = out.ops@;
        out.fill_rect(
            Rect::new(
                0,
                self.measured.height - EDGE_THICKNESS,
                self.measured.width,
                EDGE_THICKNESS,
            ),
            true,
        );
        proof {
            assert(drawn.take(headed.len() as int) == headed);
            assert(out.ops@.take(drawn.len() as int) =~= drawn);
            assert(headed.take(dimmed.len() as int) =~= dimmed);
            assert(headed.take(filled.len() as int) == filled);
            assert(headed[dimmed.len() as int] == filled[dimmed.len() as int]);
            assert(out.ops@[dimmed.len() as int] == headed[dimmed.len() as int]);
            assert(dimmed.len() == old(out).ops@.len() + self.dim_ops(env.screen));
            if self.dims_below(env.screen) {
                assert(out.ops@[old(out).ops@.len() as int] == dimmed[old(out).ops@.len() as int]);
            }
            assert(headed.len() == dimmed.len() + 2);
            assert(out.ops@[dimmed.len() + 1int] == headed[dimmed.len() + 1int]);
            assert(dimmed.take(old(out).ops@.len() as int) =~= old(out).ops@);
            assert(out.ops@.take(old(out).ops@.len() as int) =~= old(out).ops@);
            assert(out.ops@.drop_last() =~= drawn);
            assert(out.ops@.take(headed.len() as int) =~= headed);
        }
    }

    /// The scrim goes first so a control declared later wins the same point;
    /// the runtime scans interactions back to front.
    fn interactions(&mut self, origin: Point, out: &mut Interactions<M>, env: &Env)
        ensures
            final(self).spec_measured() == old(self).spec_measured(),
            final(self).spec_scrim_tap() == old(self).spec_scrim_tap(),
            final(self).spec_content_origin() == old(self).spec_content_origin(),
            match old(self).spec_content_at(origin) {
                Some(at) => exists|content: &mut C, declared: &mut Interactions<M>|
                    #[trigger] declares(content, at, declared, env) && scrim_declared(
                        *old(out),
                        *declared,
                        old(self).spec_scrim_tap(),
                        spec_below_panel(env.screen, old(self).spec_measured()),
                    ) && *content == old(self).spec_content() && *final(content)
                        == final(self).spec_content() && *final(declared) == *final(out),
                None => scrim_declared(
                    *old(out),
                    *final(out),
                    old(self).spec_scrim_tap(),
                    spec_below_panel(env.screen, old(self).spec_measured()),
                ) && final(self).spec_content() == old(self).spec_content(),
            },
    {
        self.declare_scrim(out, env.screen);
        match self.content_at(origin) {
            Some(at) => {
                declare_in(&mut self.content, at, out, env);
            },
            None => {},
        }
    }
}

impl<M: Clone, C: Widget<M>> OverlayPanel<M, C> {
    /// Declares the dismiss target: the strip below the panel, tap only, when
    /// a dismiss message was given and some of the screen below still shows.
    /// It is the very rect `render` dims.
    pub fn declare_scrim(&self, out: &mut Interactions<M>, screen: Size)
        requires
            old(out).wf(),
            size_in_range(screen),
            size_in_range(self.spec_measured()),
        ensures
            final(out).wf(),
            final(out).spec_focus() == old(out).spec_focus(),
            final(out).spec_ignoring() == old(out).spec_ignoring(),
            final(out).spec_focusable() == old(out).spec_focusable(),
            (self.spec_scrim_tap() is None || spec_below_panel(screen, self.spec_measured()) is None
                || old(out).spec_ignoring()) ==> final(out).spec_items() == old(out).spec_items(),
            self.spec_scrim_tap() matches Some(msg) ==> spec_below_panel(
                screen,
                self.spec_measured(),
            ) matches Some(below) ==> !old(out).spec_ignoring() ==> {
                &&& final(out).spec_items().len() == old(out).spec_items().len() + 1
                &&& final(out).spec_items().take(old(out).spec_items().len() as int)
                    == old(out).spec_items()
                &&& final(out).spec_items().last().rect == below
                &&& final(out).spec_items().last().mask == InputMask(1)
                &&& final(out).spec_items().last().trigger matches Trigger::Message(m) && cloned(
                    msg,
                    m,
                )
            },
            scrim_declared(
                *old(out),
                *final(out),
                self.spec_scrim_tap(),
                spec_below_panel(screen, self.spec_measured()),
            ),
    {
        let message = match &self.scrim_tap {
            Some(message) => message,
            None => return ,
        };
        let below = match self.below_panel(screen) {
            Some(below) => below,
            None => return ,
        };
        let ghost before = *out;
        let sent = message.clone();
        let ghost kept = sent;
        let tap = InputMask::tap();
        assert(tap == InputMask(1));
        out.declare(below, tap, Trigger::Message(sent));
        proof {
            assert(declared_one(before, *out, Interaction { rect: below, mask: InputMask(1), trigger: Trigger::Message(kept) }));
            assert(out.spec_items().take(old(out).spec_items().len() as int) =~= old(
                out,
            ).spec_items());
            assert(InputMask(1u8 & 2u8) == InputMask(0)) by {
                assert(1u8 & 2u8 == 0u8) by (bit_vector);
            }
        }
    }
}

} // verus!
