//! The ordinary full-screen root: header, content, button hints.
use vstd::prelude::*;

use crate::geometry::{Point, Rect, Size};
use crate::host::{in_layout_range, rect_in_range, size_in_range, DrawOp, Hint, Renderer, ScreenChrome};
use crate::view::{declare_in, declares, draw_in, draws, Env, Interactions, Widget};

verus! {

/// A full screen: the themed header with the screen's title, the content in
/// the theme's content area between header and button hints, and the four
/// hints with their standard labels.
#[verifier::reject_recursive_types(M)]
pub struct NavigationScreen<M, C> {
    content: C,
    messages: std::marker::PhantomData<M>,
    /// Where the content sits, from the last `measure`.
    area: Rect,
    measured: Size,
}

impl<M, C: Widget<M>> NavigationScreen<M, C> {
    pub closed spec fn spec_area(&self) -> Rect {
        self.area
    }

    pub closed spec fn spec_measured(&self) -> Size {
        self.measured
    }

    /// What is shown between header and hints.
    pub closed spec fn spec_content(&self) -> C {
        self.content
    }

    /// The size the content last measured.
    pub closed spec fn spec_content_size(&self) -> Size {
        self.content.spec_size()
    }

    /// Where the content is drawn when the screen is drawn at `origin`, or
    /// `None` when that falls outside layout range.
    pub open spec fn spec_content_at(&self, origin: Point) -> Option<Point> {
        let x = origin.x + self.spec_area().origin.x;
        let y = origin.y + self.spec_area().origin.y;
        let at = Point { x: x as i32, y: y as i32 };
        if crate::host::coord(x) && crate::host::coord(y) && rect_in_range(
            Rect { origin: at, size: self.spec_content_size() },
        ) {
            Some(at)
        } else {
            None
        }
    }

    pub fn new(content: C) -> (s: NavigationScreen<M, C>)
        ensures
            s.spec_content() == content,
            s.spec_area() == Rect::spec_new(0, 0, 0, 0),
            s.spec_measured() == Size::zero_spec(),
    {
        NavigationScreen {
            content,
            messages: std::marker::PhantomData,
            area: Rect::new(0, 0, 0, 0),
            measured: Size::zero(),
        }
    }

    /// Where the content is drawn when the screen is drawn at `origin`, or
    /// `None` when that falls outside layout range.
    fn content_origin(&self, origin: Point) -> (p: Option<Point>)
        ensures
            p == self.spec_content_at(origin),
            p matches Some(at) ==> at == (Point {
                x: (origin.x + self.spec_area().origin.x) as i32,
                y: (origin.y + self.spec_area().origin.y) as i32,
            }) && rect_in_range(Rect { origin: at, size: self.spec_content_size() }),
            p is None ==> !rect_in_range(
                Rect {
                    origin: Point {
                        x: (origin.x + self.spec_area().origin.x) as i32,
                        y: (origin.y + self.spec_area().origin.y) as i32,
                    },
                    size: self.spec_content_size(),
                },
            ) || !crate::host::coord(origin.x + self.spec_area().origin.x) || !crate::host::coord(
                origin.y + self.spec_area().origin.y,
            ),
    {
        let x = origin.x as i64 + self.area.origin.x as i64;
        let y = origin.y as i64 + self.area.origin.y as i64;
        if x < -0x3fff_ffff || x > 0x3fff_ffff || y < -0x3fff_ffff || y > 0x3fff_ffff {
            return None;
        }
        let at = Point { x: x as i32, y: y as i32 };
        if in_layout_range(Rect { origin: at, size: self.content.size() }) {
            Some(at)
        } else {
            None
        }
    }
}

impl<M, C: Widget<M>> Widget<M> for NavigationScreen<M, C> {
    open spec fn spec_size(&self) -> Size {
        self.spec_measured()
    }

    open spec fn spec_flexible(&self) -> bool {
        false
    }

    open spec fn spec_contributes(&self) -> bool {
        true
    }

    fn is_flexible(&self) -> (b: bool) {
        false
    }

    fn contributes_cross_size(&self) -> (b: bool) {
        true
    }

    /// The whole of what is offered; the content gets the theme's content
    /// area within it.
    fn measure(&mut self, available: Size, env: &Env)
        ensures
            final(self).spec_measured() == available,
            final(self).spec_area() == env.theme.spec_content_area(available),
            exists|content: &mut C|
                #[trigger] call_ensures(C::measure, (content, env.theme.spec_content_area(available).size, env), ())
                    && *content == old(self).spec_content() && *final(content) == final(self).spec_content(),
    {
        proof {
            env.theme.lemma_fields();
        }
        self.area = env.theme.content_area(available);
        self.content.measure(self.area.size, env);
        self.measured = available;
    }

    fn size(&self) -> (s: Size) {
        self.measured
    }

    /// The header first, then the content, then the hints over the bottom
    /// band.
    fn render(&self, origin: Point, out: &mut Renderer, env: &Env)
        ensures
            final(out).ops@[old(out).ops@.len() as int] matches DrawOp::Header { title: Some(t), subtitle: None }
                && t@ == old(out).title@,
            final(out).ops@.last() == (DrawOp::ButtonHints {
                back: Hint::Standard,
                confirm: Hint::Standard,
                previous: Hint::Standard,
                next: Hint::Standard,
            }),
            final(out).screen == old(out).screen,
            final(out).title == old(out).title,
            match self.spec_content_at(origin) {
                Some(at) => exists|drawn: &mut Renderer|
                    #[trigger] draws(&self.spec_content(), at, drawn, env) && drawn.screen
                        == old(out).screen && drawn.title == old(out).title && drawn.ops@ == final(out).ops@.take(
                        old(out).ops@.len() + 1int,
                    ) && final(drawn).screen == old(out).screen && final(drawn).title == old(out).title
                        && final(drawn).ops@ == final(out).ops@.drop_last(),
                None => final(out).ops@.len() == old(out).ops@.len() + 2,
            },
    {
        ScreenChrome::draw_screen_header(out);
        let ghost headed = out.ops@;
        match self.content_origin(origin) {
            Some(at) => {
                draw_in(&self.content, at, out, env);
                assert(self.spec_content() == self.content);
                let ghost drawn = out.ops@;
                ScreenChrome::draw_button_hints(out, Hint::Standard, Hint::Standard, Hint::Standard, Hint::Standard);
                proof {
                    assert(out.ops@.take(drawn.len() as int) =~= drawn);
                    lemma_prefix_kept(old(out).ops@, headed, drawn, out.ops@);
                    assert(out.ops@.drop_last() =~= drawn);
                    assert(out.ops@.take(headed.len() as int) =~= headed);
                }
                return ;
            },
            None => {},
        }
        let ghost drawn = out.ops@;
        ScreenChrome::draw_button_hints(out, Hint::Standard, Hint::Standard, Hint::Standard, Hint::Standard);
        proof {
            assert(drawn.take(headed.len() as int) =~= headed);
            assert(out.ops@.take(drawn.len() as int) =~= drawn);
            lemma_prefix_kept(old(out).ops@, headed, drawn, out.ops@);
        }
    }

    /// The content's regions, declared where `render` draws it; nothing when
    /// that falls outside layout range. The header and hints declare nothing.
    fn interactions(&mut self, origin: Point, out: &mut Interactions<M>, env: &Env)
        ensures
            final(self).spec_area() == old(self).spec_area(),
            final(self).spec_measured() == old(self).spec_measured(),
            match old(self).spec_content_at(origin) {
                Some(at) => exists|content: &mut C, declared: &mut Interactions<M>|
                    #[trigger] declares(content, at, declared, env) && *content == old(self).spec_content()
                        && *final(content) == final(self).spec_content() && *declared == *old(out)
                        && *final(declared) == *final(out),
                None => final(self).spec_content() == old(self).spec_content() && *final(out) == *old(out),
            },
    {
        match self.content_origin(origin) {
            Some(at) => {
                declare_in(&mut self.content, at, out, env);
            },
            None => {},
        }
    }
}

/// Three drawing steps, each keeping what came before: the first step's
/// one addition survives to the end, and so does everything before it.
proof fn lemma_prefix_kept(start: Seq<DrawOp>, headed: Seq<DrawOp>, drawn: Seq<DrawOp>, end: Seq<DrawOp>)
    requires
        headed.len() == start.len() + 1,
        headed.take(start.len() as int) == start,
        drawn.len() >= headed.len(),
        drawn.take(headed.len() as int) == headed,
        end.len() == drawn.len() + 1,
        end.take(drawn.len() as int) == drawn,
    ensures
        end[start.len() as int] == headed[start.len() as int],
        end.take(start.len() as int) == start,
{
    assert(drawn[start.len() as int] == headed[start.len() as int]) by {
        assert(drawn.take(headed.len() as int)[start.len() as int] == drawn[start.len() as int]);
    }
    assert(end[start.len() as int] == drawn[start.len() as int]) by {
        assert(end.take(drawn.len() as int)[start.len() as int] == end[start.len() as int]);
    }
    assert(end.take(start.len() as int) =~= start) by {
        assert forall|i: int| 0 <= i < start.len() implies end[i] == start[i] by {
            assert(end.take(drawn.len() as int)[i] == end[i]);
            assert(drawn.take(headed.len() as int)[i] == drawn[i]);
            assert(headed.take(start.len() as int)[i] == headed[i]);
        }
    }
}

} // verus!
