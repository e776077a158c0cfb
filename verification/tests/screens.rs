//! The product's screens, driven as the firmware drives them: through the
//! runtime, with a deterministic stand-in for the host.

use std::cell::Cell;

use crosspoint_rs::activities::settings::developers_screen::{DevelopersScreen, Msg as DevMsg};
use crosspoint_rs::activities::settings::developers;
use crosspoint_rs::activities::util::frontlight_panel::{FrontlightPanel, Msg};
use crosspoint_rs::device::{DeviceWrite, Heap};
use crosspoint_rs::geometry::{Point, Size};
use crosspoint_rs::host::{
    Button, DrawOp, FontId, FontRole, FontStyle, Renderer, TextMetrics, Theme, Translations,
};
use crosspoint_rs::screen::{InputSource, Requests, Runtime, Screen};
use crosspoint_rs::view::{Env, InputMask, Interactions, Widget};

const SCREEN_WIDTH: i32 = 480;
const SCREEN_HEIGHT: i32 = 800;
const MIN_TOUCH_SIZE: i32 = 44;

/// English, as the firmware's default table has it; unknown keys echo back.
struct Strings;

impl Translations for Strings {
    fn tr(&self, key: &str) -> String {
        match key {
            "STR_BRIGHTNESS" => "Brightness",
            "STR_WARMTH" => "Warmth",
            "STR_FREE_HEAP" => "Free heap",
            "STR_LARGEST_BLOCK" => "Largest block",
            "STR_MIN_FREE_HEAP" => "Lowest free heap",
            "STR_SECTION_MEMORY" => "Memory",
            "STR_SECTION_EXPERIMENTAL" => "Experimental",
            "STR_FRONTLIGHT_PANEL_RUST" => "Rust frontlight panel",
            "STR_STATE_ON" => "On",
            "STR_STATE_OFF" => "Off",
            other => other,
        }
        .to_string()
    }
}

/// Fonts measured the way the test host of the firmware measures them: a
/// fixed advance per character.
struct Fonts;

impl TextMetrics for Fonts {
    fn font(&self, role: FontRole) -> FontId {
        FontId(match role {
            FontRole::Ui => 1003,
            FontRole::UiSmall => 1004,
            FontRole::Reader => 1001,
        })
    }

    fn text_width(&self, font: FontId, text: &str, _style: FontStyle) -> i32 {
        if font.0 == 0 {
            return 0;
        }
        let advance = match font.0 {
            1004 => 5,
            1001 => 8,
            _ => 6,
        };
        text.chars().count() as i32 * advance
    }

    fn line_height(&self, font: FontId) -> i32 {
        match font.0 {
            0 => 0,
            1004 => 14,
            1001 => 19,
            _ => 17,
        }
    }
}


fn theme() -> Theme {
    Theme {
        top_padding: 8,
        header_height: 40,
        vertical_spacing: 12,
        button_hints_height: 40,
        content_side_padding: 16,
        content_top: 60,
        content_bottom: 760,
        list_row_height: 40,
        list_row_height_with_subtitle: 56,
        list_row_gap: 4,
        progress_bar_height: 6,
        min_touch_size: MIN_TOUCH_SIZE,
        slider_knob_width: 14,
        slider_knob_height: 22,
        slider_side_inset: 8,
    }
}

fn screen() -> Size {
    Size::new(SCREEN_WIDTH, SCREEN_HEIGHT)
}

fn with_env<R>(f: impl FnOnce(&Env) -> R) -> R {
    let fonts = Fonts;
    let strings = Strings;
    let env = Env { theme: theme(), screen: screen(), fonts: &fonts, strings: &strings };
    f(&env)
}

/// One frame of input: at most one button press, or a tap, or a held touch.
#[derive(Default)]
struct Frame {
    pressed: Option<Button>,
    held: Option<Button>,
    tap: Option<Point>,
    touch_held: Option<Point>,
    released: bool,
    now: Cell<u32>,
}

impl InputSource for Frame {
    fn was_pressed(&self, button: Button) -> bool {
        self.pressed == Some(button)
    }

    fn is_pressed(&self, button: Button) -> bool {
        self.held == Some(button)
    }

    fn has_touch(&self) -> bool {
        self.tap.is_some() || self.touch_held.is_some() || self.released
    }

    fn tap(&self) -> Option<Point> {
        self.tap
    }

    fn touch_held(&self) -> Option<Point> {
        self.touch_held
    }

    fn touch_released(&self) -> bool {
        self.released
    }

    fn millis(&self) -> u32 {
        self.now.get()
    }
}

fn press(button: Button, now: u32) -> Frame {
    Frame { pressed: Some(button), held: Some(button), now: Cell::new(now), ..Frame::default() }
}

fn panel(brightness: i32, warmth: i32, light_on: bool, has_warmth: bool) -> FrontlightPanel {
    FrontlightPanel::new(brightness, warmth, light_on, false, has_warmth)
}

fn apply(panel: &mut FrontlightPanel, message: Msg) -> Requests {
    let mut requests = Requests::new();
    panel.update(message, &mut requests);
    requests
}

fn body_interactions<S: Screen>(screen: &S, focus: usize) -> Interactions<S::Message> {
    with_env(|env| {
        let mut view = screen.body(env);
        view.measure(env.screen, env);
        let mut out = Interactions::new(focus);
        view.interactions(Point::origin(), &mut out, env);
        out
    })
}

#[test]
fn raising_brightness_turns_the_light_on() {
    let mut p = panel(40, 50, false, true);
    apply(&mut p, Msg::Brightness(60));
    assert_eq!(p.brightness(), 60);
    assert!(p.light_on());
    assert_eq!(p.take_writes(), vec![DeviceWrite::Brightness(60), DeviceWrite::LightOn(true)]);
}

#[test]
fn brightness_is_held_within_the_scale() {
    let mut p = panel(40, 50, true, true);
    apply(&mut p, Msg::Brightness(150));
    assert_eq!(p.brightness(), 100);
    apply(&mut p, Msg::Brightness(-5));
    assert_eq!(p.brightness(), 0);
    assert_eq!(p.take_writes(), vec![DeviceWrite::Brightness(100), DeviceWrite::Brightness(0)]);
}

#[test]
fn asking_for_the_same_level_tells_the_firmware_nothing() {
    let mut p = panel(40, 50, true, true);
    apply(&mut p, Msg::Brightness(40));
    apply(&mut p, Msg::Warmth(50));
    apply(&mut p, Msg::Light(true));
    assert!(p.take_writes().is_empty());
    apply(&mut p, Msg::Brightness(41));
    apply(&mut p, Msg::Brightness(41));
    assert_eq!(p.take_writes(), vec![DeviceWrite::Brightness(41)]);
}

#[test]
fn warmth_never_touches_the_light() {
    let mut p = panel(40, 50, false, true);
    apply(&mut p, Msg::Warmth(80));
    assert_eq!(p.warmth(), 80);
    assert!(!p.light_on());
    assert_eq!(p.take_writes(), vec![DeviceWrite::Warmth(80)]);
}

#[test]
fn a_nudge_at_the_end_of_the_scale_is_absorbed() {
    let mut p = panel(100, 0, true, true);
    apply(&mut p, Msg::StepBrightness(1));
    apply(&mut p, Msg::StepWarmth(-1));
    assert_eq!(p.brightness(), 100);
    assert_eq!(p.warmth(), 0);
    assert!(p.take_writes().is_empty());
    apply(&mut p, Msg::StepBrightness(-1));
    apply(&mut p, Msg::StepBrightness(1));
    assert_eq!(p.brightness(), 100);
    assert_eq!(p.take_writes(), vec![DeviceWrite::Brightness(99), DeviceWrite::Brightness(100)]);
}

#[test]
fn an_extreme_nudge_cannot_overflow() {
    let mut p = panel(100, 100, true, true);
    apply(&mut p, Msg::StepBrightness(i32::MAX));
    apply(&mut p, Msg::StepWarmth(i32::MIN));
    assert_eq!(p.brightness(), 100);
    assert_eq!(p.warmth(), 0);
}

#[test]
fn the_light_switch_writes_only_on_change() {
    let mut p = panel(40, 50, true, true);
    apply(&mut p, Msg::Light(false));
    apply(&mut p, Msg::Light(false));
    assert!(!p.light_on());
    assert_eq!(p.take_writes(), vec![DeviceWrite::LightOn(false)]);
}

#[test]
fn inversion_takes_the_firmware_at_its_word() {
    let mut p = panel(40, 50, true, true);
    apply(&mut p, Msg::Inverted(true));
    assert_eq!(p.take_writes(), vec![DeviceWrite::ToggleInverted]);
    assert!(!p.inverted(), "the panel waits for the firmware's report");
    p.report_inverted(true);
    assert!(p.inverted());
}

#[test]
fn dismissing_pops_the_panel() {
    let mut p = panel(40, 50, true, true);
    let requests = apply(&mut p, Msg::Dismiss);
    assert!(requests.finish);
    assert!(p.take_writes().is_empty());
}

#[test]
fn confirm_is_the_light_switch() {
    let p = panel(40, 50, true, true);
    assert_eq!(p.on_key(Button::Confirm), Some(Msg::Light(false)));
    assert_eq!(p.on_key(Button::Up), None);
    assert_eq!(p.on_key(Button::Left), None);
}

#[test]
fn the_light_is_saved_once_on_the_way_out() {
    let mut p = panel(40, 50, true, true);
    apply(&mut p, Msg::Brightness(41));
    apply(&mut p, Msg::Brightness(42));
    p.on_exit();
    assert_eq!(
        p.take_writes(),
        vec![DeviceWrite::Brightness(41), DeviceWrite::Brightness(42), DeviceWrite::SaveLight]
    );
}

#[test]
fn the_home_gesture_dismisses_the_panel_not_the_screen_below() {
    let mut p = panel(40, 50, true, true);
    let mut requests = Requests::new();
    assert!(p.handle_home_gesture(&mut requests));
    assert!(requests.finish);
    assert!(p.is_overlay());
}

#[test]
fn the_panel_offers_one_focus_stop_per_setting() {
    let with_warmth = body_interactions(&panel(40, 50, true, true), 0);
    assert_eq!(with_warmth.focusable_count(), 2);
    let without = body_interactions(&panel(40, 50, true, false), 0);
    assert_eq!(without.focusable_count(), 1);
    let adjustable = without.items().iter().filter(|i| i.mask.contains(InputMask::adjust())).count();
    assert_eq!(adjustable, 1);
}

#[test]
fn the_panel_draws_over_a_dimmed_screen() {
    let mut runtime = Runtime::new(panel(40, 50, true, false));
    let mut out = Renderer::new(screen(), String::from("Frontlight"));
    with_env(|env| runtime.render(env, &mut out));
    assert!(matches!(out.ops[0], DrawOp::Scrim { .. }), "the screen below is dimmed first");
    assert!(!out.ops.iter().any(|op| matches!(op, DrawOp::Clear)), "an overlay never clears");
    assert!(out.ops.iter().any(|op| matches!(op, DrawOp::Text { text, .. } if text == "Brightness  40%")));
}

#[test]
fn right_nudges_the_focused_stepper() {
    let mut runtime = Runtime::new(panel(40, 50, true, true));
    let mut out = Renderer::new(screen(), String::from("Frontlight"));
    with_env(|env| runtime.render(env, &mut out));

    let mut requests = Requests::new();
    with_env(|env| runtime.loop_(&press(Button::Right, 10), env, &mut requests));
    assert!(requests.update);
    assert_eq!(runtime.screen().brightness(), 41);

    // Down moves to warmth; Left then nudges it.
    let mut requests = Requests::new();
    with_env(|env| runtime.loop_(&press(Button::Down, 20), env, &mut requests));
    assert_eq!(runtime.focused_index(), 1);
    with_env(|env| runtime.loop_(&press(Button::Left, 30), env, &mut requests));
    assert_eq!(runtime.screen().warmth(), 49);
    assert_eq!(
        runtime.screen_mut().take_writes(),
        vec![DeviceWrite::Brightness(41), DeviceWrite::Warmth(49)]
    );
}

#[test]
fn confirm_through_the_runtime_switches_the_light() {
    let mut runtime = Runtime::new(panel(40, 50, true, true));
    let mut requests = Requests::new();
    with_env(|env| runtime.loop_(&press(Button::Confirm, 10), env, &mut requests));
    assert!(!runtime.screen().light_on());
}

#[test]
fn a_tap_below_the_panel_dismisses_it() {
    let mut runtime = Runtime::new(panel(40, 50, true, false));
    let mut out = Renderer::new(screen(), String::from("Frontlight"));
    with_env(|env| runtime.render(env, &mut out));
    let tap = Frame { tap: Some(Point::new(10, SCREEN_HEIGHT - 10)), ..Frame::default() };
    let mut requests = Requests::new();
    with_env(|env| runtime.loop_(&tap, env, &mut requests));
    assert!(requests.finish);
}

#[test]
fn touches_wait_for_the_first_paint() {
    let mut runtime = Runtime::new(panel(40, 50, true, false));
    let tap = Frame { tap: Some(Point::new(10, SCREEN_HEIGHT - 10)), ..Frame::default() };
    let mut requests = Requests::new();
    with_env(|env| runtime.loop_(&tap, env, &mut requests));
    assert!(!requests.finish);
}

#[test]
fn back_pops_an_ordinary_screen() {
    let mut runtime = Runtime::new(DevelopersScreen::new());
    let mut requests = Requests::new();
    with_env(|env| runtime.loop_(&press(Button::Back, 10), env, &mut requests));
    assert!(requests.finish);
}

fn heap() -> Heap {
    Heap { free: 199_204, largest_block: 65_536, min_free: 1_048_576 }
}

#[test]
fn memory_rows_show_the_heap_in_the_chosen_scale() {
    let mut screen = DevelopersScreen::new();
    screen.observe(heap(), false);
    let list = with_env(|env| screen.memory_usage_view(env));
    assert_eq!(list.len(), 3);

    let mut requests = Requests::new();
    screen.update(DevMsg::CycleUnits, &mut requests);
    let mut runtime = Runtime::new(screen);
    let mut out = Renderer::new(screen_size(), String::from("Developers"));
    with_env(|env| runtime.render(env, &mut out));
    let values: Vec<String> = out
        .ops
        .iter()
        .filter_map(|op| match op {
            DrawOp::List { rows, .. } => Some(rows.iter().filter_map(|r| r.value.clone()).collect::<Vec<_>>()),
            _ => None,
        })
        .flatten()
        .collect();
    assert!(values.contains(&String::from("199,204 B")));
    assert!(values.contains(&String::from("1,048,576 B")));
}

fn screen_size() -> Size {
    screen()
}

#[test]
fn kilobytes_are_the_default_scale() {
    let mut screen = developers::DevelopersScreen::new();
    screen.observe(heap());
    let mut runtime = Runtime::new(screen);
    let mut out = Renderer::new(screen_size(), String::from("Developers"));
    with_env(|env| runtime.render(env, &mut out));
    assert!(matches!(out.ops[0], DrawOp::Clear));
    let has_kb = out.ops.iter().any(|op| match op {
        DrawOp::List { rows, .. } => rows.iter().any(|r| r.value.as_deref() == Some("195 KB")),
        _ => false,
    });
    assert!(has_kb);
}

#[test]
fn every_memory_row_cycles_the_scale() {
    let mut screen = DevelopersScreen::new();
    screen.observe(heap(), false);
    let interactions = body_interactions(&screen, 0);
    // The toggle row, then the three memory rows.
    assert_eq!(interactions.focusable_count(), 4);
    for item in &interactions.items()[1..] {
        assert_eq!(item.trigger.resolve(item.rect, 0, &theme()), DevMsg::CycleUnits);
    }
}

#[test]
fn the_panel_toggle_reports_the_next_choice_and_queues_it() {
    let mut screen = DevelopersScreen::new();
    screen.observe(heap(), true);
    let interactions = body_interactions(&screen, 0);
    let first = &interactions.items()[0];
    assert_eq!(first.trigger.resolve(first.rect, 0, &theme()), DevMsg::RustPanel(false));

    let mut requests = Requests::new();
    screen.update(DevMsg::RustPanel(false), &mut requests);
    assert_eq!(screen.take_writes(), vec![DeviceWrite::RustFrontlightPanel(false)]);
    assert!(!requests.update && !requests.finish);
}

#[test]
fn cycling_the_scale_twice_returns_to_kilobytes() {
    let mut screen = developers::DevelopersScreen::new();
    let mut requests = Requests::new();
    screen.update(developers::Msg::CycleUnits, &mut requests);
    screen.update(developers::Msg::CycleUnits, &mut requests);
    let list = with_env(|env| screen.memory_usage_view(env));
    assert_eq!(list.len(), 3);
}

/// A held button fires once on press, again only after the initial delay,
/// then once per interval; releasing it stops the repeat.
#[test]
fn a_held_button_repeats_after_a_delay() {
    let mut runtime = Runtime::new(panel(40, 50, true, false));
    let mut requests = Requests::new();
    with_env(|env| runtime.loop_(&press(Button::Right, 1_000), env, &mut requests));
    assert_eq!(runtime.screen().brightness(), 41);

    let held = |now: u32| Frame { held: Some(Button::Right), now: Cell::new(now), ..Frame::default() };
    with_env(|env| runtime.loop_(&held(1_300), env, &mut requests));
    assert_eq!(runtime.screen().brightness(), 41, "not before the delay");
    with_env(|env| runtime.loop_(&held(1_500), env, &mut requests));
    assert_eq!(runtime.screen().brightness(), 42, "once the delay has passed");
    with_env(|env| runtime.loop_(&held(1_700), env, &mut requests));
    assert_eq!(runtime.screen().brightness(), 42, "not again within the interval");
    with_env(|env| runtime.loop_(&held(2_000), env, &mut requests));
    assert_eq!(runtime.screen().brightness(), 43);

    let released = Frame { now: Cell::new(2_600), ..Frame::default() };
    with_env(|env| runtime.loop_(&released, env, &mut requests));
    with_env(|env| runtime.loop_(&held(3_200), env, &mut requests));
    assert_eq!(runtime.screen().brightness(), 43, "a released button stops repeating");
}

/// Focus wraps at both ends, and Down then Up returns to where it was.
#[test]
fn focus_wraps_and_round_trips() {
    let mut screen = DevelopersScreen::new();
    screen.observe(heap(), false);
    let mut runtime = Runtime::new(screen);
    let mut requests = Requests::new();
    with_env(|env| runtime.loop_(&press(Button::Up, 10), env, &mut requests));
    assert_eq!(runtime.focused_index(), 3, "Up from the first stop wraps to the last");
    assert!(requests.update);
    with_env(|env| runtime.loop_(&press(Button::Down, 20), env, &mut requests));
    assert_eq!(runtime.focused_index(), 0);
    with_env(|env| runtime.loop_(&press(Button::Down, 30), env, &mut requests));
    with_env(|env| runtime.loop_(&press(Button::Up, 40), env, &mut requests));
    assert_eq!(runtime.focused_index(), 0);
}

/// Confirm on a memory row cycles the scale, exactly as a tap on it does.
#[test]
fn confirm_and_tap_on_a_row_agree() {
    let mut first = DevelopersScreen::new();
    first.observe(heap(), false);
    let interactions = body_interactions(&first, 1);
    let row = interactions.items()[1].rect;

    let mut by_confirm = Runtime::new(first);
    let mut requests = Requests::new();
    with_env(|env| by_confirm.loop_(&press(Button::Down, 10), env, &mut requests));
    with_env(|env| by_confirm.loop_(&press(Button::Confirm, 20), env, &mut requests));

    let mut other = DevelopersScreen::new();
    other.observe(heap(), false);
    let mut by_tap = Runtime::new(other);
    let mut out = Renderer::new(screen(), String::from("Developers"));
    with_env(|env| by_tap.render(env, &mut out));
    let tap = Frame { tap: Some(Point::new(row.x() + 5, row.y() + 5)), ..Frame::default() };
    with_env(|env| by_tap.loop_(&tap, env, &mut requests));

    let mut a = Renderer::new(screen(), String::from("Developers"));
    let mut b = Renderer::new(screen(), String::from("Developers"));
    with_env(|env| by_confirm.render(env, &mut a));
    with_env(|env| by_tap.render(env, &mut b));
    // Focus differs, so the highlight does; the figures both switched scale.
    assert_eq!(memory_values(&a), memory_values(&b));
    assert!(memory_values(&a).contains(&String::from("199,204 B")));
}

/// A drag moves the track, and the release that ends it is not a tap.
#[test]
fn a_drag_is_not_also_a_tap() {
    let mut runtime = Runtime::new(panel(40, 50, true, false));
    let mut out = Renderer::new(screen(), String::from("Frontlight"));
    with_env(|env| runtime.render(env, &mut out));
    let track = body_interactions(runtime.screen(), 0)
        .items()
        .iter()
        .find(|item| item.mask.contains(InputMask::drag()))
        .map(|item| item.rect)
        .expect("the brightness track takes drags");

    let mut requests = Requests::new();
    let drag = Frame { touch_held: Some(Point::new(track.x() + track.width() - 1, track.y() + 5)), ..Frame::default() };
    with_env(|env| runtime.loop_(&drag, env, &mut requests));
    assert_eq!(runtime.screen().brightness(), 100);

    let release = Frame { released: true, tap: Some(Point::new(10, SCREEN_HEIGHT - 10)), ..Frame::default() };
    let mut requests = Requests::new();
    with_env(|env| runtime.loop_(&release, env, &mut requests));
    assert!(!requests.finish, "the release ending a drag does not dismiss the panel");
}

fn memory_values(out: &Renderer) -> Vec<String> {
    out.ops
        .iter()
        .filter_map(|op| match op {
            DrawOp::List { rows, .. } if rows.len() == 3 => {
                Some(rows.iter().filter_map(|r| r.value.clone()).collect::<Vec<_>>())
            }
            _ => None,
        })
        .flatten()
        .collect()
}
