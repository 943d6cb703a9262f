use lumen::donut::donut_slices;
use lumen::pixels::{blit_rgba, blit_to_softbuffer, BlitRect};
use lumen::ui::{
    chart_date_label, cursor_for_zone, desktop_entry, date_tail_label, display_name, filter_usage, hovered_title_button, next_wakeup, resize_dir, settings_gap_count, str_contains, AppView,
    ConfirmChoice, CursorShape, HitZone, HoveredTitleButton, IdleButton, KeyInput, PressAction, ResizeDir, SettingsHit,
    UiState, UserAction, UserEvent, Wakeup,
};
use lumen::usage::AppUsage;
use lumen::Config;

fn no_hit() -> SettingsHit {
    SettingsHit { row: None, idle_button: IdleButton::Neither, confirm: ConfirmChoice::Neither }
}

fn row(r: usize) -> SettingsHit {
    SettingsHit { row: Some(r), ..no_hit() }
}

#[test]
fn settings_button_toggles_views() {
    let mut ui = UiState::new(false);
    let mut cfg = Config::default();
    ui.search_focused = true;
    ui.hovered_row = Some(2);
    assert_eq!(ui.press(&mut cfg, HitZone::SettingsButton, no_hit()), PressAction::Nothing);
    assert_eq!(ui.current_view, AppView::Settings);
    assert!(!ui.search_focused);
    assert_eq!(ui.hovered_row, None);
    ui.press(&mut cfg, HitZone::SettingsButton, no_hit());
    assert_eq!(ui.current_view, AppView::List);
}

#[test]
fn settings_rows() {
    let mut ui = UiState::new(false);
    let mut cfg = Config::default();
    ui.current_view = AppView::Settings;
    assert_eq!(ui.press(&mut cfg, HitZone::Client, row(0)), PressAction::WriteAutostart(true));
    assert!(ui.autostart_enabled);
    assert_eq!(ui.press(&mut cfg, HitZone::Client, row(1)), PressAction::SaveConfig);
    assert!(cfg.start_minimized);
    let minus = SettingsHit { idle_button: IdleButton::Minus, ..row(2) };
    let plus = SettingsHit { idle_button: IdleButton::Plus, ..row(2) };
    for _ in 0..10 {
        ui.press(&mut cfg, HitZone::Client, minus);
    }
    assert_eq!(cfg.idle_threshold_mins, 1);
    for _ in 0..40 {
        ui.press(&mut cfg, HitZone::Client, plus);
    }
    assert_eq!(cfg.idle_threshold_mins, 30);
    ui.press(&mut cfg, HitZone::Client, row(3));
    assert!(cfg.show_seconds);
    // clearing history needs a confirmation
    assert_eq!(ui.press(&mut cfg, HitZone::Client, row(4)), PressAction::Nothing);
    assert!(ui.confirm_clear);
    let cancel = SettingsHit { confirm: ConfirmChoice::Cancel, ..row(4) };
    assert_eq!(ui.press(&mut cfg, HitZone::Client, cancel), PressAction::Nothing);
    assert!(!ui.confirm_clear);
    ui.press(&mut cfg, HitZone::Client, row(4));
    let yes = SettingsHit { confirm: ConfirmChoice::Yes, ..row(4) };
    assert_eq!(ui.press(&mut cfg, HitZone::Client, yes), PressAction::ClearHistory);
    assert_eq!(ui.press(&mut cfg, HitZone::Client, row(5)), PressAction::OpenDataFolder);
    ui.press(&mut cfg, HitZone::Client, row(6));
    assert_eq!(ui.current_view, AppView::List);
    // in the list view a click in the client area may start a drag
    assert_eq!(ui.press(&mut cfg, HitZone::Client, row(0)), PressAction::StartDrag);
}

#[test]
fn title_buttons_and_borders() {
    let mut ui = UiState::new(false);
    let mut cfg = Config::default();
    ui.window_visible = true;
    assert_eq!(ui.press(&mut cfg, HitZone::CloseButton, no_hit()), PressAction::HideWindow);
    assert!(!ui.window_visible);
    assert_eq!(ui.press(&mut cfg, HitZone::MinimizeButton, no_hit()), PressAction::Minimize);
    assert_eq!(ui.press(&mut cfg, HitZone::ResizeTopLeft, no_hit()), PressAction::DragResize(ResizeDir::NorthWest));
    assert_eq!(resize_dir(HitZone::ResizeBottom), Some(ResizeDir::South));
    assert_eq!(resize_dir(HitZone::Client), None);
    assert_eq!(cursor_for_zone(HitZone::ResizeTopRight), CursorShape::NeswResize);
    assert_eq!(cursor_for_zone(HitZone::ResizeLeft), CursorShape::EwResize);
    assert_eq!(cursor_for_zone(HitZone::Titlebar), CursorShape::Default);
    assert_eq!(hovered_title_button(Some(HitZone::CloseButton)), HoveredTitleButton::Close);
    assert_eq!(hovered_title_button(Some(HitZone::ChartButton)), HoveredTitleButton::NoButton);
    assert_eq!(hovered_title_button(None), HoveredTitleButton::NoButton);
}

#[test]
fn search_box_editing() {
    let mut ui = UiState::new(false);
    let mut cfg = Config::default();
    assert!(!ui.key_pressed(KeyInput::Other(Some("x".into()))));
    assert_eq!(ui.search_query, "");
    assert_eq!(ui.press(&mut cfg, HitZone::SearchField, no_hit()), PressAction::ResetCursorBlink);
    assert!(ui.key_pressed(KeyInput::Other(Some("ab".into()))));
    assert!(ui.key_pressed(KeyInput::Other(Some("ц".into()))));
    assert_eq!(ui.search_query, "abц");
    assert!(!ui.key_pressed(KeyInput::Backspace));
    assert_eq!(ui.search_query, "ab");
    ui.key_pressed(KeyInput::Other(None));
    ui.key_pressed(KeyInput::Enter);
    assert!(!ui.search_focused);
    ui.press(&mut cfg, HitZone::SearchClear, no_hit());
    assert_eq!(ui.search_query, "");
    assert!(ui.search_focused);
    ui.key_pressed(KeyInput::Escape);
    assert!(!ui.search_focused);
    // a click elsewhere leaves the search box
    ui.press(&mut cfg, HitZone::SearchField, no_hit());
    assert_eq!(ui.press(&mut cfg, HitZone::Titlebar, no_hit()), PressAction::StartDrag);
    assert!(!ui.search_focused);
}

#[test]
fn hover_and_events() {
    let mut ui = UiState::new(false);
    ui.dirty = false;
    assert!(ui.cursor_moved(HitZone::CloseButton, Some(1)));
    assert_eq!(ui.hovered_button, Some(HitZone::CloseButton));
    assert_eq!(ui.hovered_row, Some(1));
    ui.dirty = false;
    assert!(!ui.cursor_moved(HitZone::CloseButton, Some(1)));
    assert!(!ui.dirty);
    assert!(ui.cursor_left());
    assert_eq!(ui.hovered_row, None);
    assert!(!ui.cursor_left());
    ui.current_view = AppView::Chart;
    ui.cursor_moved(HitZone::Client, Some(3));
    assert_eq!(ui.hovered_row, None);
    assert_eq!(ui.user_event(UserEvent::ShowWindow, false), None);
    assert_eq!(ui.user_event(UserEvent::ShowWindow, true), Some(UserAction::ShowWindow));
    assert!(ui.window_visible);
    assert_eq!(ui.user_event(UserEvent::ExitRequested, true), Some(UserAction::Exit));
    assert_eq!(ui.user_event(UserEvent::DataUpdated, true), Some(UserAction::Redraw));
    assert!(ui.resumed(true));
    assert!(!ui.window_visible);
    assert_eq!(ui.focus_changed(true), Wakeup::AfterMillis(1000));
    assert_eq!(ui.focus_changed(false), Wakeup::Wait);
    ui.close_requested();
    ui.redrawn();
    assert!(!ui.dirty);
}

#[test]
fn redraw_housekeeping() {
    let mut ui = UiState::new(false);
    ui.search_focused = true;
    ui.hovered_row = Some(4);
    assert!(ui.before_redraw(true, 4));
    assert!(!ui.search_cursor_visible);
    assert_eq!(ui.hovered_row, None);
    ui.hovered_row = Some(1);
    assert!(!ui.before_redraw(false, 4));
    assert_eq!(ui.hovered_row, Some(1));
    assert_eq!(next_wakeup(true, true, true, true), Wakeup::AfterMillis(16));
    assert_eq!(next_wakeup(false, true, true, true), Wakeup::AfterMillis(500));
    assert_eq!(next_wakeup(false, false, true, true), Wakeup::AfterMillis(1000));
    assert_eq!(next_wakeup(false, false, true, false), Wakeup::Wait);
    assert_eq!(settings_gap_count(0), 0);
    assert_eq!(settings_gap_count(3), 1);
    assert_eq!(settings_gap_count(5), 2);
    assert_eq!(settings_gap_count(6), 3);
}

fn usage(name: &str, secs: u64) -> AppUsage {
    AppUsage { name: name.into(), duration_secs: secs, is_active: false, icon_rgba: None, icon_w: 0, icon_h: 0 }
}

#[test]
fn search_filter_ignores_case() {
    let rows = vec![usage("Firefox", 1), usage("code", 2), usage("FIREWALL", 3)];
    let out = filter_usage(rows.clone(), &"fire".to_string());
    let names: Vec<&str> = out.iter().map(|a| a.name.as_str()).collect();
    assert_eq!(names, vec!["Firefox", "FIREWALL"]);
    assert_eq!(filter_usage(rows.clone(), &String::new()).len(), 3);
    assert!(filter_usage(rows, &"xyz".to_string()).is_empty());
    assert!(str_contains("abc", ""));
    assert!(str_contains("abc", "bc"));
    assert!(!str_contains("ab", "abc"));
}

#[test]
fn donut_top_five_and_rest() {
    let data: Vec<(String, u64)> =
        vec![("a", 5), ("b", 0), ("c", 9), ("d", 5), ("e", 1), ("f", 7), ("g", 2), ("h", 3)]
            .into_iter()
            .map(|(n, v)| (n.to_string(), v))
            .collect();
    let d = donut_slices(&data);
    assert_eq!(d.total, 32);
    let names: Vec<&str> = d.slices.iter().map(|s| s.0.as_str()).collect();
    assert_eq!(names, vec!["c", "f", "a", "d", "h"]);
    assert_eq!(d.other, 3);
    let d = donut_slices(&vec![]);
    assert_eq!((d.total, d.slices.len(), d.other), (0, 0, 0));
}

#[test]
fn frame_to_surface() {
    let rgba = vec![1, 2, 3, 0, 0xff, 0, 0x10, 9];
    let mut out = vec![0u32; 2];
    blit_to_softbuffer(&rgba, &mut out);
    assert_eq!(out, vec![0xff010203, 0xffff0010]);
}

#[test]
fn icon_blending_onto_frame() {
    let mut frame = vec![10u8; 16];
    for q in 0..4 {
        frame[4 * q + 3] = 255;
    }
    // half-transparent pixel at (1, 1) is blended
    blit_rgba(&mut frame, &BlitRect { pw: 2, ph: 2, x: 1, y: 1, w: 1, h: 1 }, &[200, 100, 0, 128]);
    assert_eq!(&frame[12..16], &[105, 55, 4, 255]);
    assert_eq!(&frame[0..12], &[10, 10, 10, 255, 10, 10, 10, 255, 10, 10, 10, 255]);
    // opaque pixel replaces; the pixel past the right edge is dropped; a
    // transparent one leaves the frame alone
    blit_rgba(&mut frame, &BlitRect { pw: 2, ph: 2, x: 1, y: 0, w: 2, h: 1 }, &[1, 2, 3, 254, 9, 9, 9, 255]);
    assert_eq!(&frame[4..8], &[1, 2, 3, 255]);
    blit_rgba(&mut frame, &BlitRect { pw: 2, ph: 2, x: 0, y: 0, w: 1, h: 1 }, &[50, 50, 50, 0]);
    assert_eq!(&frame[0..4], &[10, 10, 10, 255]);
}

#[test]
fn display_name_drops_exe_suffix() {
    assert_eq!(display_name("firefox.exe"), "firefox");
    assert_eq!(display_name("firefox"), "firefox");
    assert_eq!(display_name("app.EXE"), "app.EXE");
    assert_eq!(display_name(".exe"), "");
    assert_eq!(display_name("exe"), "exe");
}

#[test]
fn chart_labels_for_days() {
    assert_eq!(chart_date_label("2024-03-14"), "Thu 03/14");
    assert_eq!(chart_date_label("2024-02-30"), "02-30");
    assert_eq!(chart_date_label("abc"), "abc");
    assert_eq!(date_tail_label("2024-03-14"), "03-14");
    assert_eq!(date_tail_label("2024"), "2024");
    assert_eq!(date_tail_label(""), "");
    assert_eq!(date_tail_label("\u{e9}\u{e9}a-bc"), "-bc");
    assert_eq!(date_tail_label("abcd\u{e9}f"), "abcd\u{e9}f");
    assert_eq!(chart_date_label("\u{e9}\u{e9}a-bc"), "-bc");
}

#[test]
fn desktop_entry_runs_the_executable() {
    assert_eq!(
        desktop_entry("/opt/lumen/lumen"),
        "[Desktop Entry]\nType=Application\nName=Lumen\nExec=/opt/lumen/lumen\nTerminal=false\n"
    );
}

/// The label that the stated formula gives: weekday from the day count
/// since 1970-01-01, then the zero-padded month and day.
fn label_by_formula(y: i64, m: i64, d: i64) -> String {
    let yy = if m <= 2 { y - 1 } else { y };
    let mp = if m > 2 { m - 3 } else { m + 9 };
    let days = 365 * yy + yy.div_euclid(4) - yy.div_euclid(100) + yy.div_euclid(400) + (153 * mp + 2) / 5 + d - 1 - 719468;
    let names = ["Mon", "Tue", "Wed", "Thu", "Fri", "Sat", "Sun"];
    format!("{} {:02}/{:02}", names[(days + 3).rem_euclid(7) as usize], m, d)
}

#[test]
fn chart_labels_match_the_weekday_formula() {
    let mut checked = 0;
    for y in (1i64..=9999).step_by(37) {
        for m in 1i64..=12 {
            for d in [1i64, 13, 28, 29, 30, 31] {
                let text = format!("{:04}-{:02}-{:02}", y, m, d);
                let label = chart_date_label(&text);
                let leap = (y % 4 == 0 && y % 100 != 0) || y % 400 == 0;
                let dim = match m { 2 => if leap { 29 } else { 28 }, 4 | 6 | 9 | 11 => 30, _ => 31 };
                if d <= dim {
                    assert_eq!(label, label_by_formula(y, m, d), "{}", text);
                    checked += 1;
                } else {
                    assert_eq!(label, text[5..].to_string(), "{}", text);
                }
            }
        }
    }
    assert!(checked > 10_000);
}
