//! A titled group of content.
use vstd::prelude::*;

use crate::geometry::{nonneg, Point, Rect, Size};
use crate::host::{
    coord, coord_limit, in_layout_range, metric_limit, rect_in_range, saturate, size_in_range, DrawOp,
    Renderer, Theme, ThemeMetric,
};
use crate::view::{declare_in, declares, draw_in, draws, Env, Interactions, Widget};

verus! {

/// A heading with content beneath it, for splitting a screen into groups.
///
/// The heading is drawn by the theme's own sub-header, so it matches the
/// section headings elsewhere in the firmware.
#[verifier::reject_recursive_types(M)]
pub struct Section<M, C> {
    title: String,
    content: C,
    messages: std::marker::PhantomData<M>,
    header_height: i32,
    measured: Size,
}

impl<M, C: Widget<M>> Section<M, C> {
    pub closed spec fn spec_title(&self) -> Seq<char> {
        self.title@
    }

    /// What is shown under the heading.
    pub closed spec fn spec_content(&self) -> C {
        self.content
    }

    /// The size the content last measured.
    pub closed spec fn spec_content_size(&self) -> Size {
        self.content.spec_size()
    }

    pub closed spec fn spec_header_height(&self) -> i32 {
        self.header_height
    }

    pub closed spec fn spec_measured(&self) -> Size {
        self.measured
    }

    pub fn new(title: &str, content: C) -> (s: Section<M, C>)
        ensures
            s.spec_title() == title@,
            s.spec_content() == content,
            s.spec_header_height() == 0,
            s.spec_measured() == Size::zero_spec(),
    {
        Section {
            title: String::from_str(title),
            content,
            messages: std::marker::PhantomData,
            header_height: 0,
            measured: Size::zero(),
        }
    }

    /// Where the content sits, below the heading. Shared so `render` and
    /// `interactions` cannot drift.
    pub open spec fn spec_content_origin(&self, origin: Point, theme: Theme) -> Point {
        Point {
            x: origin.x,
            y: (origin.y + self.spec_header_height() + theme.vertical_spacing) as i32,
        }
    }

    /// The content's origin, or `None` when it would fall outside layout
    /// range.
    fn content_origin(&self, origin: Point, theme: &Theme) -> (p: Option<Point>)
        requires
            theme.wf(),
        ensures
            p matches Some(at) ==> at == self.spec_content_origin(origin, *theme) && coord(
                at.y as int,
            ) && coord(origin.y + self.spec_header_height() + theme.vertical_spacing),
            p is None ==> !coord(origin.y + self.spec_header_height() + theme.vertical_spacing),
    {
        proof {
            theme.lemma_fields();
        }
        let gap = theme.metric(ThemeMetric::VerticalSpacing);
        let y = origin.y as i64 + self.header_height as i64 + gap as i64;
        if -0x3fff_ffff <= y && y <= 0x3fff_ffff {
            Some(Point { x: origin.x, y: y as i32 })
        } else {
            None
        }
    }
}

impl<M, C: Widget<M>> Widget<M> for Section<M, C> {
    open spec fn spec_size(&self) -> Size {
        self.spec_measured()
    }

    open spec fn spec_flexible(&self) -> bool {
        false
    }

    open spec fn spec_contributes(&self) -> bool {
        true
    }

    fn is_flexible(&self) -> (b: bool) {
        false
    }

    fn contributes_cross_size(&self) -> (b: bool) {
        true
    }

    /// The theme's sub-header occupies one standard row; the content gets
    /// whatever height is left below it and the gap.
    fn measure(&mut self, available: Size, env: &Env)
        ensures
            final(self).spec_header_height() == env.theme.list_row_height,
            final(self).spec_measured().width == nonneg(available.width as int),
            final(self).spec_measured().height == saturate(
                env.theme.list_row_height + env.theme.vertical_spacing
                    + final(self).spec_content_size().height,
            ),
            final(self).spec_title() == old(self).spec_title(),
            exists|content: &mut C|
                #[trigger] call_ensures(
                    C::measure,
                    (
                        content,
                        Size {
                            width: nonneg(available.width as int) as i32,
                            height: nonneg(
                                available.height - env.theme.list_row_height - env.theme.vertical_spacing,
                            ) as i32,
                        },
                        env,
                    ),
                    (),
                ) && *content == old(self).spec_content() && *final(content) == final(self).spec_content(),
    {
        proof {
            env.theme.lemma_fields();
        }
        self.header_height = env.theme.metric(ThemeMetric::ListRowHeight);
        let gap = env.theme.metric(ThemeMetric::VerticalSpacing);

        let left = available.height - self.header_height - gap;
        let remaining = if left < 0 {
            0
        } else {
            left
        };
        let offered = Size::new(available.width, remaining);
        assert(offered == Size {
            width: nonneg(available.width as int) as i32,
            height: nonneg(available.height - env.theme.list_row_height - env.theme.vertical_spacing) as i32,
        });
        self.content.measure(offered, env);

        let total = self.header_height + gap + self.content.size().height;
        let height = if total > 0x3fff_ffff {
            0x3fff_ffff
        } else {
            total
        };
        self.measured = Size::new(available.width, height);
    }

    fn size(&self) -> (s: Size) {
        self.measured
    }

    /// The heading, then the content below it — when the content lies within
    /// layout range.
    fn render(&self, origin: Point, out: &mut Renderer, env: &Env)
        ensures
            final(out).ops@[old(out).ops@.len() as int] matches DrawOp::SubHeader {
                rect,
                label,
                right_label,
            } && rect == Rect::spec_new(
                origin.x as int,
                origin.y as int,
                self.spec_measured().width as int,
                self.spec_header_height() as int,
            ) && label@ == self.spec_title() && right_label is None,
            final(out).screen == old(out).screen,
            final(out).title == old(out).title,
            ({
                let at = self.spec_content_origin(origin, env.theme);
                if coord(origin.y + self.spec_header_height() + env.theme.vertical_spacing) && rect_in_range(
                    Rect { origin: at, size: self.spec_content_size() },
                ) {
                    exists|drawn: &mut Renderer|
                        #[trigger] draws(&self.spec_content(), at, drawn, env) && drawn.screen
                            == old(out).screen && drawn.title == old(out).title && drawn.ops@
                            == old(out).ops@.push(final(out).ops@[old(out).ops@.len() as int])
                            && *final(drawn) == *final(out)
                } else {
                    final(out).ops@.len() == old(out).ops@.len() + 1
                }
            }),
    {
        Theme::draw_sub_header(
            out,
            Rect::new(origin.x, origin.y, self.measured.width, self.header_height),
            self.title.as_str(),
            None,
        );
        let ghost headed = out.ops@;
        let at = match self.content_origin(origin, &env.theme) {
            Some(at) => at,
            None => {
                proof {
                    assert(out.ops@.take(old(out).ops@.len() as int) =~= old(out).ops@);
                }
                return ;
            },
        };
        let placed = Rect { origin: at, size: self.content.size() };
        if in_layout_range(placed) {
            let ghost r_headed = *out;
            draw_in(&self.content, at, out, env);
            proof {
                assert(r_headed.ops@ =~= old(out).ops@.push(headed[old(out).ops@.len() as int]));
                assert(self.spec_content() == self.content);
                assert(out.ops@.take(old(out).ops@.len() as int) =~= old(out).ops@) by {
                    assert(headed.take(old(out).ops@.len() as int) =~= old(out).ops@);
                    assert(out.ops@.take(headed.len() as int) == headed);
                }
                assert(out.ops@[old(out).ops@.len() as int] == headed[old(out).ops@.len() as int]) by {
                    assert(out.ops@.take(headed.len() as int)[old(out).ops@.len() as int]
                        == out.ops@[old(out).ops@.len() as int]);
                }
            }
            return ;
        }
        proof {
            assert(out.ops@.take(old(out).ops@.len() as int) =~= old(out).ops@);
        }
    }

    /// The content's regions, declared where `render` draws it; nothing when
    /// it would fall outside layout range.
    fn interactions(&mut self, origin: Point, out: &mut Interactions<M>, env: &Env)
        ensures
            final(self).spec_title() == old(self).spec_title(),
            final(self).spec_header_height() == old(self).spec_header_height(),
            final(self).spec_measured() == old(self).spec_measured(),
            ({
                let at = old(self).spec_content_origin(origin, env.theme);
                if coord(origin.y + old(self).spec_header_height() + env.theme.vertical_spacing)
                    && rect_in_range(Rect { origin: at, size: old(self).spec_content_size() }) {
                    exists|content: &mut C, declared: &mut Interactions<M>|
                        #[trigger] declares(content, at, declared, env) && *content
                            == old(self).spec_content() && *final(content) == final(self).spec_content()
                            && *declared == *old(out) && *final(declared) == *final(out)
                } else {
                    final(self).spec_content() == old(self).spec_content() && *final(out) == *old(out)
                }
            }),
    {
        let at = match self.content_origin(origin, &env.theme) {
            Some(at) => at,
            None => return ,
        };
        let placed = Rect { origin: at, size: self.content.size() };
        if in_layout_range(placed) {
            declare_in(&mut self.content, at, out, env);
        }
    }
}

} // verus!
