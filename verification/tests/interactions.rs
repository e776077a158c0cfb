//! Interaction and layout tests, driven through a deterministic stand-in for
//! the host.

use std::rc::Rc;

use crosspoint_rs::cells::Cells;
use crosspoint_rs::device::{IconRole, IconSpec};
use crosspoint_rs::geometry::{Insets, Point, Rect, Size};
use crosspoint_rs::host::{
    bitmap_fits, Canvas, Chrome, DrawOp, Font, FontId, FontRole, FontStyle, Renderer, RowCells, TextMetrics,
    IconRef, Theme, ThemeMetric, Translations,
};
use crosspoint_rs::layout::spacer::Spacer;
use crosspoint_rs::layout::stack::{Alignment, Stack};
use crosspoint_rs::layout::{Flexible, Tappable};
use crosspoint_rs::view::{
    value_at, Convert, Env, InputMask, Interactions, MakeFlag, MakeMessage, Trigger, Widget,
};
use crosspoint_rs::widgets::icon_toggle::IconToggle;
use crosspoint_rs::widgets::section::Section;
use crosspoint_rs::widgets::list::{List, ListRow};
use crosspoint_rs::widgets::modal::Modal;
use crosspoint_rs::widgets::slider::Slider;
use crosspoint_rs::widgets::stepper::Stepper;
use crosspoint_rs::widgets::text::Text;
use crosspoint_rs::widgets::toggle::Toggle;

const SCREEN_WIDTH: i32 = 480;
const SCREEN_HEIGHT: i32 = 800;
const MIN_TOUCH_SIZE: i32 = 44;

#[derive(Clone, Copy, Debug, PartialEq, Eq)]
enum Msg {
    First,
    Second,
    Third,
    Value(i32),
    Step(i32),
    Toggled(bool),
}

struct ToValue;

impl MakeMessage<Msg> for ToValue {
    fn make(&self, value: i32) -> Msg {
        Msg::Value(value)
    }
}

struct ToStep;

impl MakeMessage<Msg> for ToStep {
    fn make(&self, value: i32) -> Msg {
        Msg::Step(value)
    }
}

struct ToToggled;

impl MakeFlag<Msg> for ToToggled {
    fn make(&self, on: bool) -> Msg {
        Msg::Toggled(on)
    }
}

fn to_value() -> Rc<Box<dyn MakeMessage<Msg>>> {
    Rc::new(Box::new(ToValue))
}

fn to_step() -> Rc<Box<dyn MakeMessage<Msg>>> {
    Rc::new(Box::new(ToStep))
}

fn text(label: &str) -> Text {
    Text::new(label, &Fonts)
}

fn tappable(label: &str, message: Msg) -> Box<dyn Widget<Msg>> {
    Box::new(Tappable::new(text(label), message))
}

/// Fonts measured the way the test host of the firmware measures them: a
/// fixed advance per character.
struct Fonts;

impl TextMetrics for Fonts {
    fn font(&self, role: FontRole) -> FontId {
        FontId(match role {
            FontRole::Ui => 1003,
            FontRole::UiSmall => 1004,
            FontRole::Reader => 1001,
        })
    }

    fn text_width(&self, font: FontId, text: &str, _style: FontStyle) -> i32 {
        if font.0 == 0 {
            return 0;
        }
        let advance = match font.0 {
            1004 => 5,
            1001 => 8,
            _ => 6,
        };
        text.chars().count() as i32 * advance
    }

    fn line_height(&self, font: FontId) -> i32 {
        match font.0 {
            0 => 0,
            1004 => 14,
            1001 => 19,
            _ => 17,
        }
    }
}

/// English, as the firmware's default table has it; unknown keys echo back.
struct Strings;

impl Translations for Strings {
    fn tr(&self, key: &str) -> String {
        match key {
            "STR_BRIGHTNESS" => "Brightness",
            "STR_WARMTH" => "Warmth",
            "STR_FREE_HEAP" => "Free heap",
            "STR_LARGEST_BLOCK" => "Largest block",
            "STR_MIN_FREE_HEAP" => "Lowest free heap",
            "STR_SECTION_MEMORY" => "Memory",
            "STR_SECTION_EXPERIMENTAL" => "Experimental",
            "STR_FRONTLIGHT_PANEL_RUST" => "Rust frontlight panel",
            "STR_STATE_ON" => "On",
            "STR_STATE_OFF" => "Off",
            other => other,
        }
        .to_string()
    }
}

/// Rows stacked from the middle of the screen.
struct Dialogs;

impl Chrome for Dialogs {
    fn option_popup_row_rect(&self, _title: &str, options: &Vec<String>, index: usize) -> Option<Rect> {
        if index >= options.len() {
            return None;
        }
        Some(Rect::new(16, SCREEN_HEIGHT / 4 + index as i32 * 40, SCREEN_WIDTH - 32, 40))
    }
}

fn theme() -> Theme {
    Theme {
        top_padding: 8,
        header_height: 40,
        vertical_spacing: 12,
        button_hints_height: 40,
        content_side_padding: 16,
        content_top: 60,
        content_bottom: 760,
        list_row_height: 40,
        list_row_height_with_subtitle: 56,
        list_row_gap: 4,
        progress_bar_height: 6,
        min_touch_size: MIN_TOUCH_SIZE,
        slider_knob_width: 14,
        slider_knob_height: 22,
        slider_side_inset: 8,
    }
}

fn screen() -> Size {
    Size::new(SCREEN_WIDTH, SCREEN_HEIGHT)
}

fn env<'a>(fonts: &'a Fonts, strings: &'a Strings) -> Env<'a> {
    Env { theme: theme(), screen: screen(), fonts, strings }
}

fn measure(view: &mut dyn Widget<Msg>) {
    let fonts = Fonts;
    let strings = Strings;
    let env = env(&fonts, &strings);
    view.measure(screen(), &env);
}

fn collect(view: &mut dyn Widget<Msg>, focus: usize) -> Interactions<Msg> {
    let fonts = Fonts;
    let strings = Strings;
    let env = env(&fonts, &strings);
    view.measure(screen(), &env);
    let mut out = Interactions::new(focus);
    view.interactions(Point::origin(), &mut out, &env);
    out
}

/// The message a touch at `point` produces, innermost control first.
fn touch(interactions: &Interactions<Msg>, point: Point, kind: InputMask) -> Option<Msg> {
    interactions
        .items()
        .iter()
        .rev()
        .find(|item| item.mask.contains(kind) && item.rect.contains(point))
        .map(|item| item.trigger.resolve(item.rect, point.x, &theme()))
}

/// A touch must resolve through nested containers to the control actually
/// under it, not to whichever sibling was declared first.
#[test]
fn a_nested_tree_resolves_to_the_control_under_the_touch() {
    let row: Stack<Msg> = Stack::horizontal(8)
        .push(tappable("left", Msg::First))
        .push(tappable("middle", Msg::Second))
        .push(tappable("right", Msg::Third));
    let mut tree: Stack<Msg> = Stack::vertical(10).push(Box::new(text("Heading"))).push(Box::new(row));
    let interactions = collect(&mut tree, 0);

    let heading_height = {
        let mut heading = text("Heading");
        measure(&mut heading);
        Widget::<Msg>::size(&heading).height
    };
    let row_y = heading_height + 10;

    let mut cursor = 0;
    for (label, expected) in [("left", Msg::First), ("middle", Msg::Second), ("right", Msg::Third)] {
        let mut probe = text(label);
        measure(&mut probe);
        let width = Widget::<Msg>::size(&probe).width;
        let point = Point::new(cursor + width / 2, row_y + 2);

        assert_eq!(
            touch(&interactions, point, InputMask::tap()),
            Some(expected),
            "touch at {point:?} hit the wrong control"
        );
        cursor += width + 8;
    }
}

/// A touch on nothing interactive produces nothing, rather than the nearest
/// control.
#[test]
fn a_miss_produces_nothing() {
    let mut tree: Stack<Msg> = Stack::vertical(10).push(Box::new(text("label"))).push(tappable("tap", Msg::First));
    let interactions = collect(&mut tree, 0);

    assert_eq!(
        touch(&interactions, Point::new(SCREEN_WIDTH - 1, SCREEN_HEIGHT - 1), InputMask::tap()),
        None
    );
}

/// A view with no message declares nothing at all.
#[test]
fn an_untagged_view_is_not_interactive() {
    let mut text = text("just a label");
    let interactions = collect(&mut text, 0);
    assert!(interactions.is_empty());
}

/// Held frames must reach a slider and nothing else.
#[test]
fn only_a_drag_control_accepts_held_frames() {
    let slider: Slider<Msg> = Slider::new(50, 100).on_change(to_value());
    let mut row: Stack<Msg> = Stack::horizontal(8)
        .push(tappable("x", Msg::First))
        .push(Box::new(Flexible::new(slider)));
    let interactions = collect(&mut row, 0);

    let button = interactions
        .items()
        .iter()
        .find(|item| matches!(item.trigger.resolve(item.rect, 0, &theme()), Msg::First))
        .expect("the button should declare an interaction");
    assert!(!button.mask.contains(InputMask::drag()), "a plain button must not receive held frames");

    let slider = interactions
        .items()
        .iter()
        .find(|item| item.mask.contains(InputMask::drag()))
        .expect("a slider must accept drags");
    assert!(slider.mask.contains(InputMask::tap()), "and taps too");
}

/// The rect a slider declares is the one `value_at` converts against.
#[test]
fn a_slider_touch_converts_to_the_expected_value() {
    let mut slider: Slider<Msg> = Slider::new(0, 100).on_change(to_value());
    let interactions = collect(&mut slider, 0);

    let item = &interactions.items()[0];
    let rect = item.rect;
    let theme = theme();

    assert_eq!(item.trigger.resolve(rect, rect.x(), &theme), Msg::Value(0));
    assert_eq!(item.trigger.resolve(rect, rect.x() + rect.width(), &theme), Msg::Value(100));

    let middle = value_at(rect, rect.x() + rect.width() / 2, 100, &theme);
    assert!((48..=52).contains(&middle), "the midpoint should read as about half, got {middle}");
}

fn three_rows() -> List<Msg> {
    List::new()
        .push(ListRow::new("First").on_tap(Msg::First))
        .push(ListRow::new("Second").on_tap(Msg::Second))
        .push(ListRow::new("Third").on_tap(Msg::Third))
}

/// A list declares one interaction per interactive row, in reading order.
#[test]
fn a_list_row_produces_its_own_message() {
    let mut list = three_rows();
    let interactions = collect(&mut list, 0);
    assert_eq!(interactions.focusable_count(), 3);

    let height = Widget::<Msg>::size(&list).height / 3;
    for (index, expected) in [Msg::First, Msg::Second, Msg::Third].into_iter().enumerate() {
        let point = Point::new(20, index as i32 * height + height / 2);
        assert_eq!(touch(&interactions, point, InputMask::tap()), Some(expected));
    }
}

/// A read-out row carries no message, so it neither responds nor takes focus.
#[test]
fn a_row_without_a_message_is_inert() {
    let mut list: List<Msg> = List::new()
        .push(ListRow::new("read only"))
        .push(ListRow::new("tap me").on_tap(Msg::First));
    let interactions = collect(&mut list, 0);
    assert_eq!(interactions.focusable_count(), 1);
}

/// A glyph narrower than a fingertip still gets a full-size touch target.
#[test]
fn a_small_control_still_gets_a_full_size_touch_target() {
    let mut glyph = Tappable::new(text("-"), Msg::First);
    let interactions = collect(&mut glyph, 0);

    let declared = interactions.items()[0].rect;
    assert!(declared.width() >= MIN_TOUCH_SIZE, "a tiny control should be widened to {MIN_TOUCH_SIZE}, got {}", declared.width());
    assert!(Widget::<Msg>::size(&glyph).width < MIN_TOUCH_SIZE, "and the drawn size must stay small");
}

/// Focus follows tree order.
#[test]
fn focus_follows_tree_order() {
    for focus in 0..3 {
        let mut list = three_rows();
        let interactions = collect(&mut list, focus);
        assert_eq!(interactions.focusable_count(), 3);
        let expected = [Msg::First, Msg::Second, Msg::Third][focus];
        let item = &interactions.items()[focus];
        assert_eq!(item.trigger.resolve(item.rect, 0, &theme()), expected);
    }
}

/// A tap and Confirm on the same control produce the identical message.
#[test]
fn a_tap_and_confirm_agree() {
    let mut list: List<Msg> = List::new().push(ListRow::new("only").on_tap(Msg::Second));
    let interactions = collect(&mut list, 0);

    let item = &interactions.items()[0];
    let by_confirm = item.trigger.resolve(item.rect, 0, &theme());
    let centre = Point::new(item.rect.x() + item.rect.width() / 2, item.rect.y() + item.rect.height() / 2);
    let by_touch = touch(&interactions, centre, InputMask::tap()).unwrap();

    assert_eq!(by_confirm, by_touch);
}

/// A toggle reports the state it is moving to.
#[test]
fn a_toggle_reports_the_next_state() {
    for current in [false, true] {
        let mut toggle: Toggle<Msg> = Toggle::new("Hyphenation", current, "On", "Off").on_change(&ToToggled);
        let interactions = collect(&mut toggle, 0);

        let item = &interactions.items()[0];
        assert_eq!(item.trigger.resolve(item.rect, 0, &theme()), Msg::Toggled(!current));
    }
}

fn stepper(value: i32) -> Stepper<Msg> {
    Stepper::new(value).on_change(to_value()).on_step(to_step())
}

/// A stepper's end glyphs carry the sign, and its track carries the value.
#[test]
fn a_stepper_declares_steps_and_a_track() {
    let mut stepper = stepper(50);
    let interactions = collect(&mut stepper, 0);

    let messages: Vec<Msg> = interactions
        .items()
        .iter()
        .map(|item| item.trigger.resolve(item.rect, item.rect.x(), &theme()))
        .collect();

    assert!(messages.contains(&Msg::Step(-1)), "expected a minus step");
    assert!(messages.contains(&Msg::Step(1)), "expected a plus step");
    assert!(messages.iter().any(|m| matches!(m, Msg::Value(_))), "expected a draggable track");
}

/// Centre alignment moves the touch area with the drawing.
#[test]
fn centre_alignment_moves_the_touch_area_with_the_drawing() {
    let slider: Slider<Msg> = Slider::new(50, 100);
    let mut row: Stack<Msg> = Stack::horizontal(8)
        .push(Box::new(slider))
        .push(tappable("x", Msg::First))
        .align(Alignment::Center);
    let interactions = collect(&mut row, 0);

    let declared = interactions.items()[0].rect;
    let row_height = Widget::<Msg>::size(&row).height;

    let declared_centre = declared.y() + declared.height() / 2;
    let row_centre = row_height / 2;
    assert!(
        (declared_centre - row_centre).abs() <= 1,
        "a centred child's touch area should sit on the row's midline: child centre {declared_centre}, row centre {row_centre}"
    );
}

/// A spacer declares nothing, so it can never swallow a touch.
#[test]
fn a_spacer_is_never_interactive() {
    let mut row: Stack<Msg> = Stack::horizontal(8)
        .push(Box::new(text("a")))
        .push(Box::new(Spacer::new()))
        .push(Box::new(text("b")));
    let interactions = collect(&mut row, 0);
    assert!(interactions.is_empty());
}

/// A stepper is one focus stop, not three.
#[test]
fn a_stepper_is_a_single_focus_stop() {
    let mut stepper = stepper(50);
    let interactions = collect(&mut stepper, 0);

    assert_eq!(
        interactions.focusable_count(),
        1,
        "a stepper should be one stop for buttons, however many touch targets it has"
    );
    assert!(interactions.items().len() > 1, "and it should still offer separate touch targets");
}

/// Two steppers are two stops.
#[test]
fn stacked_steppers_are_one_stop_each() {
    let mut panel: Stack<Msg> = Stack::vertical(10).push(Box::new(stepper(60))).push(Box::new(stepper(40)));
    let interactions = collect(&mut panel, 0);
    assert_eq!(interactions.focusable_count(), 2);
}

/// Left/Right nudge whatever holds focus.
#[test]
fn the_focused_stepper_takes_the_nudge() {
    let mut stepper = stepper(50);
    let interactions = collect(&mut stepper, 0);

    let adjustable = interactions
        .items()
        .iter()
        .find(|item| item.mask.contains(InputMask::adjust()))
        .expect("a stepper must accept adjustment");

    assert_eq!(adjustable.trigger.resolve_step(-1), Some(Msg::Step(-1)));
    assert_eq!(adjustable.trigger.resolve_step(1), Some(Msg::Step(1)));
}

/// A touch-only control stays out of the focus order.
#[test]
fn a_touch_only_control_is_not_focusable() {
    let icon = Tappable::new(text("icon"), Msg::First).accepting(InputMask::tap());
    let mut row: Stack<Msg> = Stack::horizontal(8).push(Box::new(icon)).push(tappable("row", Msg::Second));
    let interactions = collect(&mut row, 0);

    assert_eq!(interactions.focusable_count(), 1, "only the tappable row");
    assert_eq!(interactions.items().len(), 2, "but both still take a touch");
}

/// The grown target is centred on what was drawn: a glyph 6 wide grows by 19
/// on each side to the 44 the theme asks for.
#[test]
fn a_glyph_target_is_centred_on_what_is_drawn() {
    let mut glyph = Tappable::new(text("-"), Msg::First);
    let interactions = collect(&mut glyph, 0);
    let declared = interactions.items()[0].rect;
    assert_eq!(declared.width(), 44);
    assert_eq!(Widget::<Msg>::size(&glyph).width, 6);
    assert_eq!(declared.x(), -19);
}

/// A list asks for its rows and the gaps between them, and no more.
#[test]
fn a_list_is_as_tall_as_its_rows_and_gaps() {
    let mut list = three_rows();
    measure(&mut list);
    // 3 rows of 40 with two 4px gaps between them.
    assert_eq!(Widget::<Msg>::size(&list).height, 128);
}

#[test]
fn a_list_highlights_the_focused_row() {
    let fonts = Fonts;
    let strings = Strings;
    let env = env(&fonts, &strings);
    let mut list = three_rows();
    list.measure(screen(), &env);
    let mut out = Interactions::new(1);
    list.interactions(Point::origin(), &mut out, &env);
    let mut renderer = Renderer::new(screen(), String::from("Test"));
    list.render(Point::origin(), &mut renderer, &env);
    match &renderer.ops[0] {
        DrawOp::List { rows, selected, .. } => {
            assert_eq!(rows.len(), 3);
            assert_eq!(*selected, 1);
            assert_eq!(rows[1].title.as_deref(), Some("Second"));
        }
        other => panic!("expected a list, got {other:?}"),
    }
}

#[test]
fn a_step_trigger_nudges_and_a_message_does_not() {
    let step: Trigger<Msg> = Trigger::Step { make: Rc::new(Box::new(ToStep)) };
    assert_eq!(step.resolve_step(-1), Some(Msg::Step(-1)));
    assert_eq!(step.resolve_step(1), Some(Msg::Step(1)));
    let plain: Trigger<Msg> = Trigger::Message(Msg::First);
    assert_eq!(plain.resolve_step(1), None);
}

#[test]
fn a_modal_finds_the_option_under_a_tap() {
    let modal = Modal::new("Orientation", vec![String::from("Portrait"), String::from("Landscape")]);
    assert_eq!(modal.option_at(&Dialogs, Point::new(100, 200 + 45)), Some(1));
    assert_eq!(modal.option_at(&Dialogs, Point::new(100, 10)), None);
}

#[test]
fn insetting_pulls_every_edge_in() {
    let r = Rect::new(10, 20, 100, 50).inset(Insets::symmetric(5, 10));
    assert_eq!(r, Rect::new(15, 30, 90, 30));
    let r = Rect::new(0, 0, 4, 4).inset(Insets::all(3));
    assert_eq!(r.size, Size::new(0, 0));
}

#[test]
fn the_theme_reports_each_metric() {
    let t = theme();
    assert_eq!(t.metric(ThemeMetric::ListRowGap), 4);
    assert_eq!(t.content_area(screen()), Rect::new(16, 60, 448, 700));
}

fn slider() -> Box<dyn Widget<Msg>> {
    Box::new(Slider::new(10, 100).on_change(to_value()))
}

/// Each child of a column starts where the one before it ended, plus the
/// spacing.
#[test]
fn a_column_places_each_child_after_the_one_before() {
    let mut column: Stack<Msg> = Stack::vertical(10).push(slider()).push(slider()).push(slider());
    let interactions = collect(&mut column, 0);
    let tops: Vec<i32> = interactions.items().iter().map(|item| item.rect.y()).collect();
    // A slider is one themed row, 40, tall.
    assert_eq!(tops, vec![0, 50, 100]);
    assert_eq!(Widget::<Msg>::size(&column).height, 140);
}

/// A row is as tall as its tallest counted child, and a spacer shares out
/// what the others leave.
#[test]
fn a_spacer_takes_what_its_siblings_leave() {
    let mut row: Stack<Msg> = Stack::horizontal(0)
        .push(tappable("ab", Msg::First))
        .push(Box::new(Spacer::new()))
        .push(tappable("cd", Msg::Second));
    let interactions = collect(&mut row, 0);
    let size = Widget::<Msg>::size(&row);
    assert_eq!(size.width, SCREEN_WIDTH, "the spacer fills the width");
    assert_eq!(size.height, 17, "the spacer does not make the row taller");
    // The second glyph sits against the right edge, its target grown around it.
    let last = interactions.items()[1].rect;
    assert_eq!(last.x() + last.width() / 2, SCREEN_WIDTH - 6);
}

/// A centred child sits on the column's midline.
#[test]
fn a_centred_child_sits_on_the_midline() {
    let mut column: Stack<Msg> = Stack::vertical(0)
        .push(slider())
        .push(tappable("ab", Msg::First))
        .align(Alignment::Center);
    let interactions = collect(&mut column, 0);
    let glyph = interactions.items()[1].rect;
    assert_eq!(glyph.x() + glyph.width() / 2, SCREEN_WIDTH / 2);
}

/// An end-aligned child sits against the far edge.
#[test]
fn an_end_aligned_child_sits_against_the_far_edge() {
    let mut column: Stack<Msg> = Stack::vertical(0)
        .push(slider())
        .push(Box::new(Slider::new(0, 10).on_change(to_value())))
        .align(Alignment::End);
    let interactions = collect(&mut column, 0);
    let second = interactions.items()[1].rect;
    assert_eq!(second.x() + second.width(), SCREEN_WIDTH);
}

/// A touch reads zero at the start of the travel, the maximum at its end,
/// and never less further right.
#[test]
fn a_track_reads_from_zero_to_its_maximum() {
    let theme = theme();
    let track = Rect::new(0, 0, 200, 40);
    assert_eq!(value_at(track, -50, 100, &theme), 0);
    assert_eq!(value_at(track, 500, 100, &theme), 100);
    let mut previous = 0;
    for x in 0..200 {
        let value = value_at(track, x, 100, &theme);
        assert!((0..=100).contains(&value));
        assert!(value >= previous, "moving right never lowers the reading");
        previous = value;
    }
    // Travel is 200 - 2 * 8 - 14 = 170, starting at 8 + 7 = 15.
    assert_eq!(value_at(track, 15 + 85, 100, &theme), 50);
}

/// The kinds of input are separate bits.
#[test]
fn input_kinds_combine_and_separate() {
    let both = InputMask::tap().union(InputMask::drag());
    assert!(both.contains(InputMask::tap()));
    assert!(both.contains(InputMask::drag()));
    assert!(!both.contains(InputMask::focus()));
    let tap_only = both.without(InputMask::drag());
    assert!(tap_only.contains(InputMask::tap()));
    assert!(!tap_only.contains(InputMask::drag()));
    assert!(InputMask::default_mask().contains(InputMask::focus()));
}

/// An icon toggle is touch only, covers a full touch target, and reports the
/// state it is moving to.
#[test]
fn an_icon_toggle_reports_the_next_state_by_touch_only() {
    for current in [false, true] {
        let mut toggle: IconToggle<Msg> =
            IconToggle::new(IconRole::Sun.icon_ref(), current, &theme()).on_change(&ToToggled);
        let interactions = collect(&mut toggle, 0);
        assert_eq!(interactions.focusable_count(), 0);
        let item = &interactions.items()[0];
        assert_eq!(item.rect.width(), MIN_TOUCH_SIZE);
        assert_eq!(item.trigger.resolve(item.rect, 0, &theme()), Msg::Toggled(!current));
    }
}

/// A section draws the theme's heading, then its content below the heading
/// and the gap.
#[test]
fn a_section_heads_its_content() {
    let mut section: Section<Msg, List<Msg>> = Section::new("Memory", three_rows());
    let interactions = collect(&mut section, 0);
    // Heading row 40, gap 12.
    assert_eq!(interactions.items()[0].rect.y(), 52);
    let fonts = Fonts;
    let strings = Strings;
    let env = env(&fonts, &strings);
    let mut out = Renderer::new(screen(), String::from("Test"));
    section.render(Point::origin(), &mut out, &env);
    match &out.ops[0] {
        DrawOp::SubHeader { label, rect, .. } => {
            assert_eq!(label, "Memory");
            assert_eq!(rect.height(), 40);
        }
        other => panic!("expected the heading first, got {other:?}"),
    }
    assert!(matches!(out.ops[1], DrawOp::List { .. }));
}

/// Text in a font the build omitted measures nothing.
#[test]
fn an_unavailable_font_measures_nothing() {
    let mut text = Text::new("missing", &Fonts).font(crosspoint_rs::host::Font::unavailable());
    measure(&mut text);
    assert_eq!(Widget::<Msg>::size(&text), Size::new(0, 0));
}

/// A list's cells are laid out three to a row: title, subtitle, value.
#[test]
fn list_cells_are_found_by_row_and_field() {
    let rows = vec![
        RowCells { title: Some(String::from("Free heap")), subtitle: None, value: Some(String::from("195 KB")) },
        RowCells { title: Some(String::from("Largest")), subtitle: Some(String::from("block")), value: None },
    ];
    let cells = Cells::rows(&rows);
    assert_eq!(cells.get(0, 0), Some("Free heap"));
    assert_eq!(cells.get(0, 1), None);
    assert_eq!(cells.get(0, 2), Some("195 KB"));
    assert_eq!(cells.get(1, 1), Some("block"));
    // A field past the stride runs on into the next row, as the host indexes.
    assert_eq!(cells.get(0, 3), Some("Largest"));
    assert_eq!(cells.get(2, 0), None);
    assert_eq!(cells.cell(-1, 0), None);
    assert_eq!(cells.cell(1, -2), None);

    let options = Cells::options(&vec![String::from("Portrait"), String::from("Landscape")]);
    assert_eq!(options.cell(1, 0), Some("Landscape"));
    assert_eq!(options.cell(2, 0), None);
}

/// A bitmap needs a whole number of bytes per row.
#[test]
fn a_short_bitmap_is_refused() {
    assert!(bitmap_fits(2, Size::new(8, 2)));
    assert!(!bitmap_fits(3, Size::new(9, 2)));
    assert!(bitmap_fits(4, Size::new(9, 2)));
    assert!(bitmap_fits(0, Size::new(0, 5)));
}

/// A theme with a negative metric is not one the framework lays out.
#[test]
fn a_theme_is_checked_before_use() {
    assert!(theme().in_range());
    let mut bad = theme();
    bad.list_row_gap = -1;
    assert!(!bad.in_range());
    let fonts = Fonts;
    let strings = Strings;
    let env = env(&fonts, &strings);
    assert!(env.in_range());
}

/// A component's controls, folded into the screen that embeds it, send the
/// screen's messages and keep their places in the focus order.
#[test]
fn an_embedded_component_speaks_its_parents_messages() {
    #[derive(Clone, Copy, Debug, PartialEq, Eq)]
    enum Inner {
        Tapped,
        Moved(i32),
    }
    struct ToInner;
    impl MakeMessage<Inner> for ToInner {
        fn make(&self, value: i32) -> Inner {
            Inner::Moved(value)
        }
    }
    struct Outer;
    impl Convert<Inner, Msg> for Outer {
        fn convert(&self, message: Inner) -> Msg {
            match message {
                Inner::Tapped => Msg::Second,
                Inner::Moved(v) => Msg::Value(v * 2),
            }
        }
    }

    let mut parent: Interactions<Msg> = Interactions::new(1);
    parent.declare(Rect::new(0, 0, 10, 10), InputMask::default_mask(), Trigger::Message(Msg::First));
    let mut inner: Interactions<Inner> = parent.child();
    inner.declare(Rect::new(0, 20, 10, 10), InputMask::default_mask(), Trigger::Message(Inner::Tapped));
    let maker: Rc<Box<dyn MakeMessage<Inner>>> = Rc::new(Box::new(ToInner));
    inner.declare(Rect::new(0, 40, 100, 40), InputMask::tap(), Trigger::Value { make: maker, max: 100 });
    let conversion: Rc<Box<dyn Convert<Inner, Msg>>> = Rc::new(Box::new(Outer));
    parent.absorb(inner, conversion);

    assert_eq!(parent.len(), 3);
    assert_eq!(parent.focusable_count(), 2);
    let items = parent.items();
    assert_eq!(items[1].trigger.resolve(items[1].rect, 0, &theme()), Msg::Second);
    assert_eq!(items[1].rect, Rect::new(0, 20, 10, 10));
    let track = items[2].rect;
    assert_eq!(items[2].trigger.resolve(track, track.x() + track.width(), &theme()), Msg::Value(200));
    assert_eq!(parent.focused_rect(1), Some(Rect::new(0, 20, 10, 10)));
}

/// A pass that ignores declarations collects nothing until a view captures.
#[test]
fn a_capture_discards_what_lies_behind() {
    let mut out: Interactions<Msg> = Interactions::capturing(0);
    assert!(!out.declare(Rect::new(0, 0, 10, 10), InputMask::default_mask(), Trigger::Message(Msg::First)));
    assert!(out.is_empty());
    out.capture(2);
    assert_eq!(out.captured_focus(), Some(2));
    out.declare(Rect::new(0, 0, 10, 10), InputMask::default_mask(), Trigger::Message(Msg::Second));
    assert_eq!(out.len(), 1);
}

/// A control scrolled out of view keeps its focus stop but stops taking
/// touches.
#[test]
fn a_control_out_of_view_keeps_focus_but_not_touch() {
    let mut out: Interactions<Msg> = Interactions::new(0);
    out.declare(Rect::new(0, 0, 10, 10), InputMask::default_mask(), Trigger::Message(Msg::First));
    out.declare(Rect::new(0, 900, 10, 10), InputMask::default_mask(), Trigger::Message(Msg::Second));
    out.restrict_outside(0, Rect::new(0, 0, 480, 800), InputMask::tap());
    assert!(out.items()[0].mask.contains(InputMask::tap()));
    assert!(!out.items()[1].mask.contains(InputMask::tap()));
    assert!(out.items()[1].mask.contains(InputMask::focus()));
    assert_eq!(out.focusable_count(), 2);
}

/// A rect contains its top-left corner but not its far edges; two rects that
/// share a point intersect; an empty rect contains nothing.
#[test]
fn containment_and_overlap() {
    let r = Rect::new(10, 20, 30, 40);
    assert!(r.contains(Point::new(10, 20)));
    assert!(r.contains(Point::new(39, 59)));
    assert!(!r.contains(Point::new(40, 20)));
    assert!(!r.contains(Point::new(10, 60)));
    let other = Rect::new(39, 59, 5, 5);
    assert!(r.intersects(other) && other.intersects(r));
    assert!(!r.intersects(Rect::new(40, 20, 5, 5)));
    let empty = Rect::new(10, 20, 0, 40);
    assert!(!empty.contains(Point::new(10, 20)));
    assert!(Size::new(0, 5).is_empty());
    assert_eq!(Size::new(-3, 7), Size::new(0, 7));
    assert_eq!(Size::new(10, 10).shrink(4, 12), Size::new(6, 0));
    assert_eq!(Point::new(1, 2).offset(3, -4), Point::new(4, -2));
}

/// Each icon role is its own icon, numbered as the host's role table.
#[test]
fn icon_roles_are_distinct() {
    let roles = [
        IconRole::Book,
        IconRole::Bookmark,
        IconRole::Download,
        IconRole::File,
        IconRole::FileText,
        IconRole::Folder,
        IconRole::Image,
        IconRole::Library,
        IconRole::Moon,
        IconRole::Hotspot,
        IconRole::Search,
        IconRole::Sun,
        IconRole::Upload,
        IconRole::Wifi,
    ];
    for (index, role) in roles.iter().enumerate() {
        assert_eq!(role.code() as usize, index);
        assert_eq!(role.icon_ref().kind as usize, index);
        assert_eq!(role.icon_ref().size, 32);
    }
}

/// A canvas that ships icons only at 24 and 48 px, and only for kinds below 10.
struct Panel;

impl Canvas for Panel {
    fn screen_size(&self) -> Size {
        Size::new(SCREEN_WIDTH, SCREEN_HEIGHT)
    }
    fn clear(&self) {}
    fn draw_text(&self, _origin: Point, _text: &str, _font: FontId, _style: FontStyle) {}
    fn fill_rect(&self, _rect: Rect, _black: bool) {}
    fn stroke_rect(&self, _rect: Rect) {}
    fn draw_line(&self, _from: Point, _to: Point) {}
    fn fill_rect_dither(&self, _rect: Rect, _light: bool) {}
    fn scrim(&self, _rect: Rect) {}
    fn draw_image(&self, _origin: Point, _data: &[u8], _size: Size) {}
    fn draw_icon(&self, _origin: Point, _icon: IconRef) {}
    fn icon_size(&self, icon: IconRef) -> i32 {
        if icon.kind >= 10 {
            0
        } else if icon.size <= 36 {
            24
        } else {
            48
        }
    }
}

#[test]
fn icon_size_is_what_the_canvas_would_draw() {
    assert_eq!(Renderer::icon_size(&Panel, IconRef::new(3)), 24);
    let mut large = IconRef::new(3);
    large.size = 64;
    assert_eq!(Renderer::icon_size(&Panel, large), 48);
    assert_eq!(Renderer::icon_size(&Panel, IconRef::new(12)), 0);
}

#[test]
fn an_icon_spec_resolves_through_the_canvas() {
    assert_eq!(IconSpec::new(IconRole::File).resolved_size(&Panel), 24);
    let mut big = IconSpec::new(IconRole::Folder);
    big.size = 48;
    big.filled = true;
    assert_eq!(big.resolved_size(&Panel), 48);
    // A role the canvas ships nothing for resolves to zero.
    assert_eq!(IconSpec::new(IconRole::Wifi).resolved_size(&Panel), 0);
}

#[test]
fn a_role_becomes_an_opaque_handle() {
    let icon = IconRef::from(IconRole::Sun);
    assert_eq!(icon.kind, 11);
    assert_eq!(icon.variant, 0);
    assert_eq!(icon.size, 32);
    let icon: IconRef = IconRole::Book.into();
    assert_eq!(icon, IconRef::new(0));
}

/// An odd shortfall still reaches the full minimum: the target grows by half
/// the shortfall rounded up on each side, centred on what was drawn.
#[test]
fn an_odd_shortfall_still_reaches_the_minimum_touch_size() {
    let fonts = Fonts;
    let small = Text::new("x", &fonts).font(Font::ui_small(&fonts));
    let mut glyph = Tappable::new(small, Msg::First);
    let interactions = collect(&mut glyph, 0);
    let declared = interactions.items()[0].rect;
    assert_eq!(Widget::<Msg>::size(&glyph), Size::new(5, 14));
    assert_eq!(declared, Rect::new(-20, -15, 45, 44));
    assert!(declared.width() >= MIN_TOUCH_SIZE && declared.height() >= MIN_TOUCH_SIZE);
}

/// A touch-only target adds nothing to the focus count; the default one adds
/// one stop.
#[test]
fn a_touch_only_target_takes_no_focus_stop() {
    let fonts = Fonts;
    let mut touch_only = Tappable::new(Text::new("-", &fonts), Msg::First).accepting(InputMask::tap());
    assert_eq!(collect(&mut touch_only, 0).focusable_count(), 0);
    let mut default = Tappable::new(Text::new("-", &fonts), Msg::First);
    assert_eq!(collect(&mut default, 0).focusable_count(), 1);
}

#[test]
fn input_kinds_combine_with_the_or_operator() {
    let both = InputMask::tap() | InputMask::focus();
    assert_eq!(both, InputMask::tap().union(InputMask::focus()));
    assert_eq!(both, InputMask::default_mask());
    assert_eq!(InputMask::drag() | InputMask::drag(), InputMask::drag());
    assert_eq!(InputMask::tap() | InputMask::adjust(), InputMask::adjust() | InputMask::tap());
}

/// Rows the host would happily place past the end of the options are never
/// asked for.
#[test]
fn a_row_past_the_last_option_has_no_rect() {
    struct Everywhere;
    impl Chrome for Everywhere {
        fn option_popup_row_rect(&self, _title: &str, _options: &Vec<String>, index: usize) -> Option<Rect> {
            Some(Rect::new(0, index as i32 * 40, 100, 40))
        }
    }
    let modal = Modal::new("Pick", vec!["a".to_string(), "b".to_string()]);
    assert_eq!(modal.row_rect(&Everywhere, 1), Some(Rect::new(0, 40, 100, 40)));
    assert_eq!(modal.row_rect(&Everywhere, 2), None);
}

/// A slider reading needs no layout range: a track far off screen still reads
/// its ends.
#[test]
fn a_reading_far_off_screen_still_reads_the_scale() {
    let track = Rect::new(2_000_000_000, 0, 100_000_000, 10);
    assert_eq!(value_at(track, i32::MIN, 100, &theme()), 0);
    assert_eq!(value_at(track, i32::MAX, 100, &theme()), 100);
    assert_eq!(value_at(Rect::new(0, 0, 1000, 10), 2000, i32::MAX, &theme()), i32::MAX);
}

/// A text is as wide as the host says, however wide that is.
#[test]
fn a_very_wide_text_measures_as_the_host_reports_it() {
    let long = "x".repeat(333_334);
    let mut text = Text::new(long.as_str(), &Fonts);
    measure(&mut text);
    assert_eq!(Widget::<Msg>::size(&text), Size::new(2_000_004, 17));
}

/// A list holds any number of rows.
#[test]
fn a_list_takes_any_number_of_rows() {
    let mut list: List<Msg> = List::new();
    for _ in 0..70_000 {
        list = list.push(ListRow::new("Row"));
    }
    assert_eq!(list.len(), 70_000);
}

/// A list declares each tappable row where the theme draws it, one pitch
/// below the last.
#[test]
fn a_long_list_declares_every_row_in_reach() {
    let mut list: List<Msg> = List::new();
    for _ in 0..1_000 {
        list = list.push(ListRow::new("Row").on_tap(Msg::First));
    }
    let out = collect(&mut list, 0);
    assert_eq!(out.len(), 1_000);
    assert_eq!(out.items()[999].rect, Rect::new(0, 999 * 44, SCREEN_WIDTH, 40));
}

/// Moving a point and moving it back returns it.
#[test]
fn moving_a_point_and_back_returns_it() {
    let p = Point::new(3, 4);
    assert_eq!(p.offset(5, -7).offset(-5, 7), p);
}
