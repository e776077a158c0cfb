//! A run of text on one line.
use vstd::prelude::*;

use crate::geometry::{nonneg, Point, Size};
use crate::host::{
    clamp_extent, gives_font, measures_height, measures_width, saturate, DrawOp, Font, FontRole, FontStyle, Renderer,
    TextMetrics,
};
use crate::view::{Env, Interactions, Widget};

verus! {

/// Draws a single line of text.
///
/// Size comes from the host's own font metrics. Estimating it instead is what
/// previously let content drift past the bottom of the screen.
pub struct Text {
    content: String,
    font: Font,
    measured: Size,
}

impl Text {
    pub closed spec fn spec_content(&self) -> Seq<char> {
        self.content@
    }

    pub closed spec fn spec_font(&self) -> Font {
        self.font
    }

    pub closed spec fn spec_measured(&self) -> Size {
        self.measured
    }

    /// Text in the default interface font.
    pub fn new<T: TextMetrics + ?Sized>(content: &str, metrics: &T) -> (t: Text)
        ensures
            t.spec_content() == content@,
            gives_font(metrics, FontRole::Ui, t.spec_font().spec_id()),
            t.spec_font().spec_style() == FontStyle::Regular,
            t.spec_measured() == Size::zero_spec(),
    {
        Text { content: String::from_str(content), font: Font::ui(metrics), measured: Size::zero() }
    }

    /// Draws in `font` instead of the default.
    pub fn font(self, font: Font) -> (t: Text)
        ensures
            t.spec_content() == self.spec_content(),
            t.spec_font() == font,
            t.spec_measured() == self.spec_measured(),
    {
        let mut t = self;
        t.font = font;
        t
    }

    /// Draws bold.
    pub fn bold(self) -> (t: Text)
        ensures
            t.spec_content() == self.spec_content(),
            t.spec_font().spec_id() == self.spec_font().spec_id(),
            t.spec_font().spec_style() == FontStyle::Bold,
            t.spec_measured() == self.spec_measured(),
    {
        let mut t = self;
        t.font = t.font.bold();
        t
    }

    /// Draws italic.
    pub fn italic(self) -> (t: Text)
        ensures
            t.spec_content() == self.spec_content(),
            t.spec_font().spec_id() == self.spec_font().spec_id(),
            t.spec_font().spec_style() == FontStyle::Italic,
            t.spec_measured() == self.spec_measured(),
    {
        let mut t = self;
        t.font = t.font.italic();
        t
    }
}

impl<M> Widget<M> for Text {
    open spec fn spec_size(&self) -> Size {
        self.spec_measured()
    }

    open spec fn spec_text(&self) -> Option<Seq<char>> {
        Some(self.spec_content())
    }

    open spec fn spec_flexible(&self) -> bool {
        false
    }

    open spec fn spec_contributes(&self) -> bool {
        true
    }

    fn is_flexible(&self) -> (b: bool) {
        false
    }

    fn contributes_cross_size(&self) -> (b: bool) {
        true
    }


    /// As wide as the host draws the string, one line tall: whatever is
    /// offered does not matter. A negative report counts as zero, and one past
    /// the layout range as the edge of it.
    fn measure(&mut self, available: Size, env: &Env)
        ensures
            exists|w: i32, h: i32|
                #![trigger measures_width(env.fonts, old(self).spec_font(), old(self).spec_content(), w), measures_height(env.fonts, old(self).spec_font(), h)]
                measures_width(env.fonts, old(self).spec_font(), old(self).spec_content(), w)
                    && measures_height(env.fonts, old(self).spec_font(), h)
                    && final(self).spec_measured() == (Size {
                    width: saturate(nonneg(w as int)) as i32,
                    height: saturate(nonneg(h as int)) as i32,
                }),
            final(self).spec_content() == old(self).spec_content(),
            final(self).spec_font() == old(self).spec_font(),
    {
        let width = self.font.text_width(env.fonts, self.content.as_str());
        let height = self.font.line_height(env.fonts);
        assert(measures_width(env.fonts, self.spec_font(), self.spec_content(), width));
        assert(measures_height(env.fonts, self.spec_font(), height));
        self.measured = Size { width: clamp_extent(width), height: clamp_extent(height) };
    }

    fn size(&self) -> (s: Size) {
        self.measured
    }

    fn render(&self, origin: Point, out: &mut Renderer, env: &Env)
        ensures
            final(out).ops.len() == old(out).ops.len() + 1,
            final(out).ops@.last() matches DrawOp::Text { origin: o, text: t, font: f, style: s }
                && o == origin && t@ == self.spec_content() && f == self.spec_font().spec_id() && s
                == self.spec_font().spec_style(),
    {
        out.draw_text(origin, self.content.as_str(), self.font.id(), self.font.style());
    }

    /// Plain text is never interactive.
    fn interactions(&mut self, origin: Point, out: &mut Interactions<M>, env: &Env)
        ensures
            *final(out) == *old(out),
            *final(self) == *old(self),
    {
    }
}

} // verus!
