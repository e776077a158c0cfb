//! What the framework needs from its host: theme geometry, font measurement,
//! and a surface to draw on.
//!
//! The host's numbers arrive as values (a [`Theme`] snapshot, the screen
//! size), its font engine and dialog geometry are asked through
//! [`TextMetrics`] and [`Chrome`], and everything the framework draws is
//! recorded in a [`Renderer`] as a list of [`DrawOp`]s for the host to paint.
use vstd::prelude::*;

use crate::geometry::{fits_i32, Point, Rect, Size, nonneg};

verus! {

/// The largest coordinate or dimension the framework lays out: half of
/// `i32`, so that a coordinate plus a dimension, or a coordinate less one,
/// is still an `i32`. A text or section measured past it reads as this edge.
pub open spec fn coord_limit() -> int {
    0x3fff_ffff
}

/// The largest value a theme metric may take: small enough that a
/// coordinate plus a few metrics stays an `i32`. A theme reporting a negative
/// metric, or one past this, is not laid out.
pub open spec fn metric_limit() -> int {
    0x400_0000
}

/// A coordinate the framework can lay out without overflow.
pub open spec fn coord(v: int) -> bool {
    -coord_limit() <= v <= coord_limit()
}

/// A dimension the framework can lay out without overflow.
pub open spec fn extent(v: int) -> bool {
    0 <= v <= coord_limit()
}

/// A point both of whose coordinates are in layout range.
pub open spec fn point_in_range(p: Point) -> bool {
    coord(p.x as int) && coord(p.y as int)
}

/// A rect lying wholly within layout range: both corners are coordinates in
/// range and neither dimension is negative.
pub open spec fn rect_in_range(r: Rect) -> bool {
    &&& coord(r.origin.x as int)
    &&& coord(r.origin.y as int)
    &&& extent(r.size.width as int)
    &&& extent(r.size.height as int)
    &&& coord(r.origin.x + r.size.width)
    &&& coord(r.origin.y + r.size.height)
}

/// Whether `r` lies wholly within layout range, so a widget there can be
/// drawn and hit-tested.
pub fn in_layout_range(r: Rect) -> (b: bool)
    ensures
        b == rect_in_range(r),
{
    let limit: i64 = 0x3fff_ffff;
    let x = r.origin.x as i64;
    let y = r.origin.y as i64;
    let w = r.size.width as i64;
    let h = r.size.height as i64;
    -limit <= x && x <= limit && -limit <= y && y <= limit && 0 <= w && w <= limit && 0 <= h && h
        <= limit && -limit <= x + w && x + w <= limit && -limit <= y + h && y + h <= limit
}

/// `v` capped at the largest dimension the framework lays out.
pub open spec fn saturate(v: int) -> int {
    if v > coord_limit() {
        coord_limit()
    } else {
        v
    }
}

/// `v` as a dimension: a negative value reads as zero, and one past the
/// layout range as its edge.
pub fn clamp_extent(v: i32) -> (r: i32)
    ensures
        r == saturate(nonneg(v as int)),
        extent(r as int),
{
    if v < 0 {
        0
    } else if v > 0x3fff_ffff {
        0x3fff_ffff
    } else {
        v
    }
}

/// The bytes a 1-bpp bitmap `width` wide and `height` tall takes: a whole
/// number of bytes per row.
pub open spec fn bitmap_bytes(width: int, height: int) -> int {
    ((width + 7) / 8) * height
}

/// Whether `len` bytes hold a whole bitmap of `size`, a negative dimension
/// counting as zero. The host refuses a shorter buffer rather than reading
/// past its end.
pub fn bitmap_fits(len: usize, size: Size) -> (b: bool)
    ensures
        b == (len >= bitmap_bytes(nonneg(size.width as int), nonneg(size.height as int))),
{
    let width: u64 = if size.width < 0 {
        0
    } else {
        size.width as u64
    };
    let height: u64 = if size.height < 0 {
        0
    } else {
        size.height as u64
    };
    let per_row = (width + 7) / 8;
    assert(per_row * height <= 0x1000_0000 * 0x8000_0000) by (nonlinear_arith)
        requires
            per_row <= 0x1000_0000,
            height <= 0x8000_0000,
    ;
    let needed = per_row * height;
    len as u64 >= needed
}

/// A size both of whose dimensions are in layout range.
pub open spec fn size_in_range(s: Size) -> bool {
    extent(s.width as int) && extent(s.height as int)
}

/// A geometry value from the active theme.
///
/// Requested one at a time by tag rather than mirrored as a struct: a host's
/// metrics table has dozens of fields, and a copy of its layout here would
/// silently read the wrong values the moment one is inserted.
#[derive(Copy, Clone, Debug, PartialEq, Eq, Structural)]
pub enum ThemeMetric {
    /// Gap above the header band.
    TopPadding,
    HeaderHeight,
    /// The theme's standard gap between stacked elements.
    VerticalSpacing,
    /// Height reserved at the bottom for button hints.
    ButtonHintsHeight,
    ContentSidePadding,
    /// First y below the header that content may use.
    ContentTop,
    /// First y occupied by the button hints; content must stay above.
    ContentBottom,
    ListRowHeight,
    ListRowHeightWithSubtitle,
    /// Space the theme leaves between one row and the next.
    ListRowGap,
    ProgressBarHeight,
    /// Smallest comfortably tappable dimension.
    MinTouchSize,
    /// A slider knob's width.
    SliderKnobWidth,
    SliderKnobHeight,
    /// The padding a slider track is inset by at each end.
    SliderSideInset,
}

/// The active theme's geometry, as the host reported it for this frame.
#[derive(Copy, Clone, Debug, PartialEq, Eq, Structural)]
pub struct Theme {
    pub top_padding: i32,
    pub header_height: i32,
    pub vertical_spacing: i32,
    pub button_hints_height: i32,
    pub content_side_padding: i32,
    pub content_top: i32,
    pub content_bottom: i32,
    pub list_row_height: i32,
    pub list_row_height_with_subtitle: i32,
    pub list_row_gap: i32,
    pub progress_bar_height: i32,
    pub min_touch_size: i32,
    pub slider_knob_width: i32,
    pub slider_knob_height: i32,
    pub slider_side_inset: i32,
}

impl Theme {
    /// The value of one metric.
    pub open spec fn spec_metric(self, metric: ThemeMetric) -> i32 {
        match metric {
            ThemeMetric::TopPadding => self.top_padding,
            ThemeMetric::HeaderHeight => self.header_height,
            ThemeMetric::VerticalSpacing => self.vertical_spacing,
            ThemeMetric::ButtonHintsHeight => self.button_hints_height,
            ThemeMetric::ContentSidePadding => self.content_side_padding,
            ThemeMetric::ContentTop => self.content_top,
            ThemeMetric::ContentBottom => self.content_bottom,
            ThemeMetric::ListRowHeight => self.list_row_height,
            ThemeMetric::ListRowHeightWithSubtitle => self.list_row_height_with_subtitle,
            ThemeMetric::ListRowGap => self.list_row_gap,
            ThemeMetric::ProgressBarHeight => self.progress_bar_height,
            ThemeMetric::MinTouchSize => self.min_touch_size,
            ThemeMetric::SliderKnobWidth => self.slider_knob_width,
            ThemeMetric::SliderKnobHeight => self.slider_knob_height,
            ThemeMetric::SliderSideInset => self.slider_side_inset,
        }
    }

    /// Every metric is a non-negative dimension no larger than
    /// `metric_limit`.
    pub open spec fn wf(self) -> bool {
        forall|m: ThemeMetric| 0 <= #[trigger] self.spec_metric(m) <= metric_limit()
    }

    /// Whether every metric is a dimension the framework can lay out, so a
    /// host can test a theme before laying anything out against it.
    pub fn in_range(&self) -> (b: bool)
        ensures
            b == self.wf(),
    {
        let fields = [
            self.top_padding,
            self.header_height,
            self.vertical_spacing,
            self.button_hints_height,
            self.content_side_padding,
            self.content_top,
            self.content_bottom,
            self.list_row_height,
            self.list_row_height_with_subtitle,
            self.list_row_gap,
            self.progress_bar_height,
            self.min_touch_size,
            self.slider_knob_width,
            self.slider_knob_height,
            self.slider_side_inset,
        ];
        let mut i: usize = 0;
        while i < 15
            invariant
                i <= 15,
                fields@ == seq![
                    self.top_padding,
                    self.header_height,
                    self.vertical_spacing,
                    self.button_hints_height,
                    self.content_side_padding,
                    self.content_top,
                    self.content_bottom,
                    self.list_row_height,
                    self.list_row_height_with_subtitle,
                    self.list_row_gap,
                    self.progress_bar_height,
                    self.min_touch_size,
                    self.slider_knob_width,
                    self.slider_knob_height,
                    self.slider_side_inset,
                ],
                forall|j: int| 0 <= j < i ==> 0 <= #[trigger] fields@[j] <= metric_limit(),
            decreases 15 - i,
        {
            if fields[i] < 0 || fields[i] > 0x400_0000 {
                proof {
                    if self.wf() {
                        self.lemma_fields();
                    }
                }
                return false;
            }
            i = i + 1;
        }
        proof {
            assert forall|m: ThemeMetric| 0 <= #[trigger] self.spec_metric(m) <= metric_limit() by {
                match m {
                    ThemeMetric::TopPadding => assert(fields@[0] == self.top_padding),
                    ThemeMetric::HeaderHeight => assert(fields@[1] == self.header_height),
                    ThemeMetric::VerticalSpacing => assert(fields@[2] == self.vertical_spacing),
                    ThemeMetric::ButtonHintsHeight => assert(fields@[3] == self.button_hints_height),
                    ThemeMetric::ContentSidePadding => assert(fields@[4] == self.content_side_padding),
                    ThemeMetric::ContentTop => assert(fields@[5] == self.content_top),
                    ThemeMetric::ContentBottom => assert(fields@[6] == self.content_bottom),
                    ThemeMetric::ListRowHeight => assert(fields@[7] == self.list_row_height),
                    ThemeMetric::ListRowHeightWithSubtitle => assert(fields@[8] == self.list_row_height_with_subtitle),
                    ThemeMetric::ListRowGap => assert(fields@[9] == self.list_row_gap),
                    ThemeMetric::ProgressBarHeight => assert(fields@[10] == self.progress_bar_height),
                    ThemeMetric::MinTouchSize => assert(fields@[11] == self.min_touch_size),
                    ThemeMetric::SliderKnobWidth => assert(fields@[12] == self.slider_knob_width),
                    ThemeMetric::SliderKnobHeight => assert(fields@[13] == self.slider_knob_height),
                    ThemeMetric::SliderSideInset => assert(fields@[14] == self.slider_side_inset),
                }
            }
        }
        true
    }

    /// A well-formed theme bounds every field.
    pub proof fn lemma_fields(self)
        requires
            self.wf(),
        ensures
            0 <= self.top_padding <= metric_limit(),
            0 <= self.header_height <= metric_limit(),
            0 <= self.vertical_spacing <= metric_limit(),
            0 <= self.button_hints_height <= metric_limit(),
            0 <= self.content_side_padding <= metric_limit(),
            0 <= self.content_top <= metric_limit(),
            0 <= self.content_bottom <= metric_limit(),
            0 <= self.list_row_height <= metric_limit(),
            0 <= self.list_row_height_with_subtitle <= metric_limit(),
            0 <= self.list_row_gap <= metric_limit(),
            0 <= self.progress_bar_height <= metric_limit(),
            0 <= self.min_touch_size <= metric_limit(),
            0 <= self.slider_knob_width <= metric_limit(),
            0 <= self.slider_knob_height <= metric_limit(),
            0 <= self.slider_side_inset <= metric_limit(),
    {
        assert(0 <= self.spec_metric(ThemeMetric::TopPadding) <= metric_limit());
        assert(0 <= self.spec_metric(ThemeMetric::HeaderHeight) <= metric_limit());
        assert(0 <= self.spec_metric(ThemeMetric::VerticalSpacing) <= metric_limit());
        assert(0 <= self.spec_metric(ThemeMetric::ButtonHintsHeight) <= metric_limit());
        assert(0 <= self.spec_metric(ThemeMetric::ContentSidePadding) <= metric_limit());
        assert(0 <= self.spec_metric(ThemeMetric::ContentTop) <= metric_limit());
        assert(0 <= self.spec_metric(ThemeMetric::ContentBottom) <= metric_limit());
        assert(0 <= self.spec_metric(ThemeMetric::ListRowHeight) <= metric_limit());
        assert(0 <= self.spec_metric(ThemeMetric::ListRowHeightWithSubtitle) <= metric_limit());
        assert(0 <= self.spec_metric(ThemeMetric::ListRowGap) <= metric_limit());
        assert(0 <= self.spec_metric(ThemeMetric::ProgressBarHeight) <= metric_limit());
        assert(0 <= self.spec_metric(ThemeMetric::MinTouchSize) <= metric_limit());
        assert(0 <= self.spec_metric(ThemeMetric::SliderKnobWidth) <= metric_limit());
        assert(0 <= self.spec_metric(ThemeMetric::SliderKnobHeight) <= metric_limit());
        assert(0 <= self.spec_metric(ThemeMetric::SliderSideInset) <= metric_limit());
    }

    pub fn metric(&self, metric: ThemeMetric) -> (v: i32)
        ensures
            v == self.spec_metric(metric),
    {
        match metric {
            ThemeMetric::TopPadding => self.top_padding,
            ThemeMetric::HeaderHeight => self.header_height,
            ThemeMetric::VerticalSpacing => self.vertical_spacing,
            ThemeMetric::ButtonHintsHeight => self.button_hints_height,
            ThemeMetric::ContentSidePadding => self.content_side_padding,
            ThemeMetric::ContentTop => self.content_top,
            ThemeMetric::ContentBottom => self.content_bottom,
            ThemeMetric::ListRowHeight => self.list_row_height,
            ThemeMetric::ListRowHeightWithSubtitle => self.list_row_height_with_subtitle,
            ThemeMetric::ListRowGap => self.list_row_gap,
            ThemeMetric::ProgressBarHeight => self.progress_bar_height,
            ThemeMetric::MinTouchSize => self.min_touch_size,
            ThemeMetric::SliderKnobWidth => self.slider_knob_width,
            ThemeMetric::SliderKnobHeight => self.slider_knob_height,
            ThemeMetric::SliderSideInset => self.slider_side_inset,
        }
    }

    /// The rect `content_area` gives on a screen of `screen`.
    pub open spec fn spec_content_area(self, screen: Size) -> Rect {
        Rect::spec_new(
            self.content_side_padding as int,
            self.content_top as int,
            screen.width - self.content_side_padding * 2,
            self.content_bottom - self.content_top,
        )
    }

    /// The region between the header and the button hints, already inset
    /// horizontally by the theme's side padding.
    pub fn content_area(&self, screen: Size) -> (r: Rect)
        requires
            fits_i32(self.content_side_padding * 2),
            fits_i32(screen.width - self.content_side_padding * 2),
            fits_i32(self.content_bottom - self.content_top),
        ensures
            r == self.spec_content_area(screen),
            r.origin.x == self.content_side_padding,
            r.origin.y == self.content_top,
            r.size.width == nonneg(screen.width - self.content_side_padding * 2),
            r.size.height == nonneg(self.content_bottom - self.content_top),
    {
        let side = self.content_side_padding;
        Rect::new(side, self.content_top, screen.width - side * 2, self.content_bottom - self.content_top)
    }

    /// The themed progress bar.
    pub fn draw_progress_bar(out: &mut Renderer, rect: Rect, current: u32, total: u32)
        ensures
            final(out).screen == old(out).screen,
            final(out).title == old(out).title,
            final(out).ops@ == old(out).ops@.push(DrawOp::ProgressBar { rect, current, total }),
    {
        out.ops.push(DrawOp::ProgressBar { rect, current, total });
    }

    /// The themed slider: a track, a fill up to `value`, and a knob over both.
    /// The host owns every dimension of it; the framework says only where it
    /// goes and how far along it is.
    pub fn draw_slider(out: &mut Renderer, rect: Rect, value: i32, max: i32)
        ensures
            final(out).screen == old(out).screen,
            final(out).title == old(out).title,
            final(out).ops@ == old(out).ops@.push(DrawOp::Slider { rect, value, max }),
    {
        out.ops.push(DrawOp::Slider { rect, value, max });
    }

    /// The scroll indicator beside a scrolling region: how much of `content`
    /// the `rect`-sized window shows, and how far down it sits.
    pub fn draw_scroll_indicator(
        out: &mut Renderer,
        rect: Rect,
        content: i32,
        visible: i32,
        offset: i32,
    )
        ensures
            final(out).screen == old(out).screen,
            final(out).title == old(out).title,
            final(out).ops@ == old(out).ops@.push(
                DrawOp::ScrollIndicator { rect, content, visible, offset },
            ),
    {
        out.ops.push(DrawOp::ScrollIndicator { rect, content, visible, offset });
    }

    /// A section heading, drawn by the theme's own sub-header.
    pub fn draw_sub_header(out: &mut Renderer, rect: Rect, label: &str, right_label: Option<&str>)
        ensures
            final(out).screen == old(out).screen,
            final(out).title == old(out).title,
            final(out).ops.len() == old(out).ops.len() + 1,
            final(out).ops@.take(old(out).ops.len() as int) == old(out).ops@,
            final(out).ops@.last() matches DrawOp::SubHeader { rect: r, label: l, right_label: rl }
                && r == rect && l@ == label@ && opt_text_eq(rl, right_label),
    {
        let right = match right_label {
            Some(text) => Some(String::from_str(text)),
            None => None,
        };
        out.ops.push(DrawOp::SubHeader { rect, label: String::from_str(label), right_label: right });
        assert(out.ops@.take(old(out).ops.len() as int) =~= old(out).ops@);
    }

    /// The themed list, given every field of every row.
    pub fn draw_list(out: &mut Renderer, rect: Rect, rows: Vec<RowCells>, selected: i32)
        ensures
            final(out).screen == old(out).screen,
            final(out).title == old(out).title,
            final(out).ops@ == old(out).ops@.push(DrawOp::List { rect, rows, selected }),
    {
        out.ops.push(DrawOp::List { rect, rows, selected });
    }

    /// The themed modal, given its options.
    pub fn draw_option_popup(out: &mut Renderer, title: String, options: Vec<String>, selected: i32)
        ensures
            final(out).screen == old(out).screen,
            final(out).title == old(out).title,
            final(out).ops@ == old(out).ops@.push(DrawOp::OptionPopup { title, options, selected }),
    {
        out.ops.push(DrawOp::OptionPopup { title, options, selected });
    }

    /// Screen rect of one modal row, as the host lays its dialog out.
    pub fn option_popup_row_rect<C: Chrome + ?Sized>(
        chrome: &C,
        title: &str,
        options: &Vec<String>,
        index: usize,
    ) -> (r: Option<Rect>)
        ensures
            places_row(chrome, title@, *options, index, r),
    {
        chrome.option_popup_row_rect(title, options, index)
    }
}

/// Two optional texts say the same.
pub open spec fn opt_text_eq(a: Option<String>, b: Option<&str>) -> bool {
    match (a, b) {
        (Some(x), Some(y)) => x@ == y@,
        (None, None) => true,
        _ => false,
    }
}

/// Which piece of a list row is being asked for.
#[derive(Copy, Clone, Debug, PartialEq, Eq, Structural)]
pub enum RowField {
    Title,
    Subtitle,
    Value,
}

/// The three fields of one list row, as the theme asks for them. `None`
/// omits a field, which is how the host decides between one- and two-line
/// rows.
#[derive(Clone, Debug, PartialEq, Eq)]
pub struct RowCells {
    pub title: Option<String>,
    pub subtitle: Option<String>,
    pub value: Option<String>,
}

/// One button-hint slot.
#[derive(Clone, Debug, PartialEq, Eq)]
pub enum Hint {
    /// The host's own translated label for this slot.
    Standard,
    /// Leave the slot blank.
    Blank,
    /// A label this screen supplies.
    Text(String),
}

impl Default for Hint {
    fn default() -> (h: Hint)
        ensures
            h is Standard,
    {
        Hint::Standard
    }
}

impl Hint {
    pub fn text(label: &str) -> (h: Hint)
        ensures
            h matches Hint::Text(t) && t@ == label@,
    {
        Hint::Text(String::from_str(label))
    }

    /// What the host should draw: `None` means "your standard label".
    pub fn label(&self) -> (l: Option<&str>)
        ensures
            self is Standard ==> l is None,
            self is Blank ==> (l matches Some(s) && s@ == Seq::<char>::empty()),
            self matches Hint::Text(t) ==> (l matches Some(s) && s@ == t@),
    {
        match self {
            Hint::Standard => None,
            Hint::Blank => {
                proof {
                    reveal_strlit("");
                }
                Some("")
            },
            Hint::Text(text) => Some(text.as_str()),
        }
    }
}

/// An icon the host owns. Deliberately opaque numbers: which glyph these
/// select is the host's business.
#[derive(Copy, Clone, Debug, PartialEq, Eq, Structural)]
pub struct IconRef {
    /// Which icon, in whatever numbering the host uses.
    pub kind: u16,
    /// A variant of the same icon, where the host offers one (solid vs outline).
    pub variant: u8,
    /// Preferred edge length; the host picks the nearest size it ships.
    pub size: i32,
}

impl IconRef {
    pub fn new(kind: u16) -> (i: IconRef)
        ensures
            i.kind == kind,
            i.variant == 0,
            i.size == 32,
    {
        IconRef { kind, variant: 0, size: 32 }
    }
}

/// A font the host has registered. Opaque: only the host knows what it means,
/// and `0` means "this build does not ship that font".
#[derive(Copy, Clone, Debug, Default, PartialEq, Eq, Structural)]
pub struct FontId(pub i32);

impl FontId {
    /// The font a build compiled out. Measures zero and draws nothing.
    pub fn unavailable() -> (f: FontId)
        ensures
            f.0 == 0,
    {
        FontId(0)
    }

    pub fn is_available(self) -> (b: bool)
        ensures
            b == (self.0 != 0),
    {
        self.0 != 0
    }
}

/// Weight and slant, as a host-independent value.
#[derive(Copy, Clone, Debug, PartialEq, Eq, Structural)]
pub enum FontStyle {
    Regular,
    Bold,
    Italic,
    BoldItalic,
}

/// What a piece of text is *for*, rather than which typeface it uses.
#[derive(Copy, Clone, Debug, PartialEq, Eq, Structural)]
pub enum FontRole {
    /// Interface text: labels, list rows, values.
    Ui,
    /// Smaller interface text, for captions and secondary labels.
    UiSmall,
    /// The face the user chose for reading, including fonts loaded from storage.
    Reader,
}

/// Font lookup and measurement, answered by the host's own font engine.
///
/// The framework never estimates glyph sizes — an estimate drifts from what
/// is painted and pushes content off the panel.
pub trait TextMetrics {
    /// The font for a role, or an unavailable one when this build does not
    /// ship it.
    fn font(&self, role: FontRole) -> FontId;

    fn text_width(&self, font: FontId, text: &str, style: FontStyle) -> i32;

    fn line_height(&self, font: FontId) -> i32;
}

/// Dialog geometry the host already owns, so hit-testing a modal never
/// re-derives it.
pub trait Chrome {
    /// Screen rect of one row of the themed option dialog, or `None` when
    /// `index` is not a row.
    fn option_popup_row_rect(&self, title: &str, options: &Vec<String>, index: usize) -> Option<Rect>;
}

/// The framebuffer's drawing primitives, as the host offers them.
pub trait Canvas {
    fn screen_size(&self) -> Size;

    /// Clears to background. A screen painting over what is already there —
    /// an overlay — must not call this.
    fn clear(&self);

    fn draw_text(&self, origin: Point, text: &str, font: FontId, style: FontStyle);

    /// Fills `rect`; `black` false means background.
    fn fill_rect(&self, rect: Rect, black: bool);

    fn stroke_rect(&self, rect: Rect);

    fn draw_line(&self, from: Point, to: Point);

    /// Fills with a 50% dither, which reads as grey on a 1-bit panel.
    fn fill_rect_dither(&self, rect: Rect, light: bool);

    /// Darkens `rect` while leaving what is already drawn there legible: it
    /// only adds ink, on one checkerboard parity.
    fn scrim(&self, rect: Rect);

    /// Draws a 1-bpp bitmap. Row-major, MSB first, `(w + 7) / 8` bytes per
    /// row, and bit 0 is ink.
    fn draw_image(&self, origin: Point, data: &[u8], size: Size);

    fn draw_icon(&self, origin: Point, icon: IconRef);

    /// Edge length the host would actually draw, or 0 if it ships nothing for
    /// this icon.
    fn icon_size(&self, icon: IconRef) -> i32;
}

/// The host's translations of interface strings into the active language.
pub trait Translations {
    /// The text for a `STR_*` key. An unknown key comes back as the key
    /// itself, so a typo is visible on screen instead of blank.
    fn tr(&self, key: &str) -> String;
}

/// Whether `text` is a translation `strings` can return for `key`.
pub open spec fn translates<T: Translations + ?Sized>(strings: &T, key: &str, text: String) -> bool {
    call_ensures(T::tr, (strings, key), text)
}

/// Looks `key` up in `strings`.
pub fn translate<T: Translations + ?Sized>(strings: &T, key: &str) -> (text: String)
    ensures
        translates(strings, key, text),
{
    strings.tr(key)
}

/// Whether `f` is a font `metrics` can return for `role`.
pub open spec fn gives_font<T: TextMetrics + ?Sized>(metrics: &T, role: FontRole, f: FontId) -> bool {
    call_ensures(T::font, (metrics, role), f)
}

/// Whether `w` is a width `metrics` can report for `text` in `font`; an
/// unavailable font measures zero.
pub open spec fn measures_width<T: TextMetrics + ?Sized>(metrics: &T, font: Font, text: Seq<char>, w: i32) -> bool {
    if font.spec_is_available() {
        exists|t: &str|
            t@ == text && #[trigger] call_ensures(
                T::text_width,
                (metrics, font.spec_id(), t, font.spec_style()),
                w,
            )
    } else {
        w == 0
    }
}

/// Whether `h` is a line height `metrics` can report for `font`; an
/// unavailable font measures zero.
pub open spec fn measures_height<T: TextMetrics + ?Sized>(metrics: &T, font: Font, h: i32) -> bool {
    if font.spec_is_available() {
        call_ensures(T::line_height, (metrics, font.spec_id()), h)
    } else {
        h == 0
    }
}

/// Whether `r` is a rect `chrome` can report for row `index` of the dialog
/// titled `title` offering `options`.
pub open spec fn places_row<C: Chrome + ?Sized>(
    chrome: &C,
    title: Seq<char>,
    options: Vec<String>,
    index: usize,
    r: Option<Rect>,
) -> bool {
    exists|t: &str|
        t@ == title && #[trigger] call_ensures(
            C::option_popup_row_rect,
            (chrome, t, &options, index),
            r,
        )
}

/// A font plus the style it is drawn in, as widgets reach for it.
#[derive(Copy, Clone, Debug, PartialEq, Eq, Structural)]
pub struct Font {
    id: FontId,
    style: FontStyle,
}

impl Font {
    pub closed spec fn spec_id(self) -> FontId {
        self.id
    }

    pub closed spec fn spec_style(self) -> FontStyle {
        self.style
    }

    /// A font this build does not ship. Measures zero and draws nothing.
    pub fn unavailable() -> (f: Font)
        ensures
            f.spec_id().0 == 0,
            f.spec_style() == FontStyle::Regular,
    {
        Font { id: FontId(0), style: FontStyle::Regular }
    }

    pub fn role<T: TextMetrics + ?Sized>(metrics: &T, role: FontRole) -> (f: Font)
        ensures
            gives_font(metrics, role, f.spec_id()),
            f.spec_style() == FontStyle::Regular,
    {
        Font { id: metrics.font(role), style: FontStyle::Regular }
    }

    /// Interface text: the default for every widget.
    pub fn ui<T: TextMetrics + ?Sized>(metrics: &T) -> (f: Font)
        ensures
            gives_font(metrics, FontRole::Ui, f.spec_id()),
            f.spec_style() == FontStyle::Regular,
    {
        Self::role(metrics, FontRole::Ui)
    }

    /// Smaller interface text, for captions and secondary labels.
    pub fn ui_small<T: TextMetrics + ?Sized>(metrics: &T) -> (f: Font)
        ensures
            gives_font(metrics, FontRole::UiSmall, f.spec_id()),
            f.spec_style() == FontStyle::Regular,
    {
        Self::role(metrics, FontRole::UiSmall)
    }

    /// The face the user chose for reading.
    pub fn reader<T: TextMetrics + ?Sized>(metrics: &T) -> (f: Font)
        ensures
            gives_font(metrics, FontRole::Reader, f.spec_id()),
            f.spec_style() == FontStyle::Regular,
    {
        Self::role(metrics, FontRole::Reader)
    }

    pub fn bold(self) -> (f: Font)
        ensures
            f.spec_id() == self.spec_id(),
            f.spec_style() == FontStyle::Bold,
    {
        self.with_style(FontStyle::Bold)
    }

    pub fn italic(self) -> (f: Font)
        ensures
            f.spec_id() == self.spec_id(),
            f.spec_style() == FontStyle::Italic,
    {
        self.with_style(FontStyle::Italic)
    }

    pub fn with_style(self, style: FontStyle) -> (f: Font)
        ensures
            f.spec_id() == self.spec_id(),
            f.spec_style() == style,
    {
        Font { id: self.id, style }
    }

    pub fn id(self) -> (i: FontId)
        ensures
            i == self.spec_id(),
    {
        self.id
    }

    pub fn style(self) -> (s: FontStyle)
        ensures
            s == self.spec_style(),
    {
        self.style
    }

    pub open spec fn spec_is_available(self) -> bool {
        self.spec_id().0 != 0
    }

    pub fn is_available(self) -> (b: bool)
        ensures
            b == self.spec_is_available(),
    {
        self.id.is_available()
    }

    /// The line height of this font: zero when the build omits it.
    pub fn line_height<T: TextMetrics + ?Sized>(self, metrics: &T) -> (h: i32)
        ensures
            measures_height(metrics, self, h),
    {
        if !self.is_available() {
            return 0;
        }
        metrics.line_height(self.id)
    }

    /// The width `text` takes in this font: zero when the build omits it.
    pub fn text_width<T: TextMetrics + ?Sized>(self, metrics: &T, text: &str) -> (w: i32)
        ensures
            measures_width(metrics, self, text@, w),
    {
        if !self.is_available() {
            return 0;
        }
        metrics.text_width(self.id, text, self.style)
    }
}

/// Buttons, named by meaning rather than position.
#[derive(Copy, Clone, Debug, PartialEq, Eq, Structural)]
pub enum Button {
    Left,
    Right,
    Up,
    Down,
    Confirm,
    Back,
    PageBack,
    PageForward,
}

/// One drawing call, recorded for the host to paint.
#[allow(inconsistent_fields)]
#[derive(Clone, Debug, PartialEq, Eq)]
pub enum DrawOp {
    /// Clears to background.
    Clear,
    Text { origin: Point, text: String, font: FontId, style: FontStyle },
    /// `black` false means background.
    FillRect { rect: Rect, black: bool },
    StrokeRect { rect: Rect },
    Line { from: Point, to: Point },
    /// A 50% dither, which reads as grey on a 1-bit panel.
    FillDither { rect: Rect, light: bool },
    /// Darkens without erasing, so what was behind stays legible.
    Scrim { rect: Rect },
    /// A 1-bpp bitmap: row-major, MSB first, `(w + 7) / 8` bytes per row,
    /// bit 0 is ink.
    Image { origin: Point, data: Vec<u8>, size: Size },
    Icon { origin: Point, icon: IconRef },
    /// The header band; `None` asks for no title.
    Header { title: Option<String>, subtitle: Option<String> },
    SubHeader { rect: Rect, label: String, right_label: Option<String> },
    ButtonHints { back: Hint, confirm: Hint, previous: Hint, next: Hint },
    ProgressBar { rect: Rect, current: u32, total: u32 },
    Slider { rect: Rect, value: i32, max: i32 },
    ScrollIndicator { rect: Rect, content: i32, visible: i32, offset: i32 },
    List { rect: Rect, rows: Vec<RowCells>, selected: i32 },
    OptionPopup { title: String, options: Vec<String>, selected: i32 },
}

/// The framebuffer, as the framework sees it: the screen's size and title,
/// and every drawing call made this frame, in order.
pub struct Renderer {
    pub screen: Size,
    /// The current screen's own title, already translated.
    pub title: String,
    pub ops: Vec<DrawOp>,
}

impl Renderer {
    /// A surface for one frame, with nothing drawn yet.
    pub fn new(screen: Size, title: String) -> (r: Renderer)
        ensures
            r.screen == screen,
            r.title == title,
            r.ops@.len() == 0,
    {
        Renderer { screen, title, ops: Vec::new() }
    }

    pub fn screen_size(&self) -> (s: Size)
        ensures
            s == self.screen,
    {
        self.screen
    }

    pub fn screen_bounds(&self) -> (r: Rect)
        ensures
            r.origin.x == 0,
            r.origin.y == 0,
            r.size == self.screen,
    {
        Rect { origin: Point::origin(), size: self.screen_size() }
    }

    fn record(&mut self, op: DrawOp)
        ensures
            final(self).screen == old(self).screen,
            final(self).title == old(self).title,
            final(self).ops@ == old(self).ops@.push(op),
    {
        self.ops.push(op);
    }

    /// Clears to background. A screen painting over what is already there —
    /// an overlay — must not call this.
    pub fn clear(&mut self)
        ensures
            final(self).screen == old(self).screen,
            final(self).title == old(self).title,
            final(self).ops@ == old(self).ops@.push(DrawOp::Clear),
    {
        self.record(DrawOp::Clear);
    }

    pub fn draw_text(&mut self, origin: Point, text: &str, font: FontId, style: FontStyle)
        ensures
            final(self).screen == old(self).screen,
            final(self).title == old(self).title,
            final(self).ops.len() == old(self).ops.len() + 1,
            final(self).ops@.take(old(self).ops.len() as int) == old(self).ops@,
            final(self).ops@.last() matches DrawOp::Text { origin: o, text: t, font: f, style: s }
                && o == origin && t@ == text@ && f == font && s == style,
    {
        self.record(DrawOp::Text { origin, text: String::from_str(text), font, style });
        assert(self.ops@.take(old(self).ops.len() as int) =~= old(self).ops@);
    }

    /// Fills `rect`; `black` false means background.
    pub fn fill_rect(&mut self, rect: Rect, black: bool)
        ensures
            final(self).screen == old(self).screen,
            final(self).title == old(self).title,
            final(self).ops@ == old(self).ops@.push(DrawOp::FillRect { rect, black }),
    {
        self.record(DrawOp::FillRect { rect, black });
    }

    pub fn stroke_rect(&mut self, rect: Rect)
        ensures
            final(self).screen == old(self).screen,
            final(self).title == old(self).title,
            final(self).ops@ == old(self).ops@.push(DrawOp::StrokeRect { rect }),
    {
        self.record(DrawOp::StrokeRect { rect });
    }

    pub fn draw_line(&mut self, from: Point, to: Point)
        ensures
            final(self).screen == old(self).screen,
            final(self).title == old(self).title,
            final(self).ops@ == old(self).ops@.push(DrawOp::Line { from, to }),
    {
        self.record(DrawOp::Line { from, to });
    }

    /// Fills with a 50% dither, which reads as grey on a 1-bit panel.
    pub fn fill_rect_dither(&mut self, rect: Rect, light: bool)
        ensures
            final(self).screen == old(self).screen,
            final(self).title == old(self).title,
            final(self).ops@ == old(self).ops@.push(DrawOp::FillDither { rect, light }),
    {
        self.record(DrawOp::FillDither { rect, light });
    }

    /// Darkens `rect` while leaving what is already drawn there legible.
    pub fn scrim(&mut self, rect: Rect)
        ensures
            final(self).screen == old(self).screen,
            final(self).title == old(self).title,
            final(self).ops@ == old(self).ops@.push(DrawOp::Scrim { rect }),
    {
        self.record(DrawOp::Scrim { rect });
    }

    /// Draws a 1-bpp bitmap. Row-major, MSB first, `(w + 7) / 8` bytes per row,
    /// and **bit 0 is ink** — inverted from the usual convention.
    pub fn draw_image(&mut self, origin: Point, data: Vec<u8>, size: Size)
        ensures
            final(self).screen == old(self).screen,
            final(self).title == old(self).title,
            final(self).ops@ == old(self).ops@.push(DrawOp::Image { origin, data, size }),
    {
        self.record(DrawOp::Image { origin, data, size });
    }

    pub fn draw_icon(&mut self, origin: Point, icon: IconRef)
        ensures
            final(self).screen == old(self).screen,
            final(self).title == old(self).title,
            final(self).ops@ == old(self).ops@.push(DrawOp::Icon { origin, icon }),
    {
        self.record(DrawOp::Icon { origin, icon });
    }

    /// The edge length `canvas` would actually draw `icon` at, or 0 where it
    /// ships nothing for it.
    pub fn icon_size<C: Canvas + ?Sized>(canvas: &C, icon: IconRef) -> (s: i32)
        ensures
            call_ensures(C::icon_size, (canvas, icon), s),
    {
        canvas.icon_size(icon)
    }
}

/// The screen's own furniture: header band and button hints.
pub struct ScreenChrome;

impl ScreenChrome {
    /// Draws the header with an explicit title.
    pub fn draw_header(out: &mut Renderer, title: &str)
        ensures
            final(out).screen == old(out).screen,
            final(out).title == old(out).title,
            final(out).ops.len() == old(out).ops.len() + 1,
            final(out).ops@.take(old(out).ops.len() as int) == old(out).ops@,
            final(out).ops@.last() matches DrawOp::Header { title: Some(t), subtitle: None }
                && t@ == title@,
    {
        out.record(DrawOp::Header { title: Some(String::from_str(title)), subtitle: None });
        assert(out.ops@.take(old(out).ops.len() as int) =~= old(out).ops@);
    }

    /// Draws the header with the screen's own translated title.
    ///
    /// The title is filled in here rather than left for the host to
    /// substitute: a host that took a missing title literally drew an empty
    /// header band.
    pub fn draw_screen_header(out: &mut Renderer)
        ensures
            final(out).screen == old(out).screen,
            final(out).title == old(out).title,
            final(out).ops.len() == old(out).ops.len() + 1,
            final(out).ops@.take(old(out).ops.len() as int) == old(out).ops@,
            final(out).ops@.last() matches DrawOp::Header { title: Some(t), subtitle: None }
                && t@ == old(out).title@,
    {
        let title = out.title.clone();
        out.record(DrawOp::Header { title: Some(title), subtitle: None });
        assert(out.ops@.take(old(out).ops.len() as int) =~= old(out).ops@);
    }

    /// The four hints, given by meaning. The host reorders them to match the
    /// user's button layout.
    pub fn draw_button_hints(out: &mut Renderer, back: Hint, confirm: Hint, previous: Hint, next: Hint)
        ensures
            final(out).screen == old(out).screen,
            final(out).title == old(out).title,
            final(out).ops@ == old(out).ops@.push(
                DrawOp::ButtonHints { back, confirm, previous, next },
            ),
    {
        out.record(DrawOp::ButtonHints { back, confirm, previous, next });
    }

    /// The current screen's own title, already translated.
    pub fn screen_title(out: &Renderer) -> (t: &str)
        ensures
            t@ == out.title@,
    {
        out.title.as_str()
    }
}

} // verus!
