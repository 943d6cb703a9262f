//! The window's interaction state: which view is shown, the search box,
//! hover, the settings page, and what each input asks the application to
//! do. Geometry (which zone or row a pointer position falls in) is decided
//! by the caller; this module holds the decisions that follow.
use vstd::prelude::*;
use vstd::string::*;
use vstd::utf8::{encode_scalar, encode_utf8};
use crate::types::Config;
use crate::usage::AppUsage;
use chrono::{Datelike, NaiveDate};
use crate::localtime::{valid_date, CivilDate};
use crate::text::decimal_pad2;

verus! {

/// Regions of the borderless window.
#[derive(Debug, Clone, Copy, PartialEq, Eq, Structural)]
pub enum HitZone {
    Titlebar,
    CloseButton,
    MinimizeButton,
    SettingsButton,
    ChartButton,
    SearchField,
    SearchClear,
    ResizeLeft,
    ResizeRight,
    ResizeTop,
    ResizeBottom,
    ResizeTopLeft,
    ResizeTopRight,
    ResizeBottomLeft,
    ResizeBottomRight,
    Client,
}

/// The page the window shows.
#[derive(Debug, Clone, Copy, PartialEq, Eq, Structural)]
pub enum AppView {
    List,
    Settings,
    Chart,
}

/// The title-bar button under the pointer.
#[derive(Debug, Clone, Copy, PartialEq, Eq, Structural)]
pub enum HoveredTitleButton {
    NoButton,
    Close,
    Minimize,
    Settings,
    Chart,
}

/// Events that the aggregator and the tray menu send to the window.
#[derive(Debug, Clone, Copy, PartialEq, Eq, Structural)]
pub enum UserEvent {
    DataUpdated,
    /// Show the window (tray menu).
    ShowWindow,
    /// Quit (tray menu).
    ExitRequested,
}

/// Edge or corner to resize the window from.
#[derive(Debug, Clone, Copy, PartialEq, Eq, Structural)]
pub enum ResizeDir {
    West,
    East,
    North,
    South,
    NorthWest,
    NorthEast,
    SouthWest,
    SouthEast,
}

/// Mouse pointer shapes.
#[derive(Debug, Clone, Copy, PartialEq, Eq, Structural)]
pub enum CursorShape {
    Default,
    EwResize,
    NsResize,
    NwseResize,
    NeswResize,
}

/// Which idle-threshold button a click on the idle row hit.
#[derive(Debug, Clone, Copy, PartialEq, Eq, Structural)]
pub enum IdleButton {
    Minus,
    Plus,
    Neither,
}

/// Which answer of the clear-history confirmation a click hit.
#[derive(Debug, Clone, Copy, PartialEq, Eq, Structural)]
pub enum ConfirmChoice {
    Yes,
    Cancel,
    Neither,
}

/// Where a click on the settings page landed: its row, if any, and the
/// buttons of the idle and confirmation rows.
#[derive(Debug, Clone, Copy, PartialEq, Eq, Structural)]
pub struct SettingsHit {
    pub row: Option<usize>,
    pub idle_button: IdleButton,
    pub confirm: ConfirmChoice,
}

/// A key pressed while the search box has the focus.
#[derive(Debug)]
pub enum KeyInput {
    Backspace,
    Escape,
    Enter,
    /// Any other key, with the text it produces.
    Other(Option<String>),
}

/// What a mouse press asks the application to do.
#[derive(Debug, Clone, Copy, PartialEq, Eq, Structural)]
pub enum PressAction {
    Nothing,
    HideWindow,
    Minimize,
    DragResize(ResizeDir),
    /// Turn launching at login on or off.
    WriteAutostart(bool),
    SaveConfig,
    ClearHistory,
    OpenDataFolder,
    /// Move the window if the press was on the title bar.
    StartDrag,
    /// Restart the search cursor's blinking.
    ResetCursorBlink,
}

/// What an event from the aggregator or the tray asks of the application.
#[derive(Debug, Clone, Copy, PartialEq, Eq, Structural)]
pub enum UserAction {
    Redraw,
    /// Un-minimize, show and focus the window.
    ShowWindow,
    Exit,
}

/// When the event loop should wake up next.
#[derive(Debug, Clone, Copy, PartialEq, Eq, Structural)]
pub enum Wakeup {
    /// Only on the next event.
    Wait,
    /// After the given number of milliseconds.
    AfterMillis(u64),
}

/// Smallest and largest idle threshold the settings page allows, in
/// minutes.
pub const MIN_IDLE_MINS: u32 = 1;
pub const MAX_IDLE_MINS: u32 = 30;
/// Number of rows on the settings page.
pub const SETTINGS_ROWS: usize = 7;

/// The discrete state of the window.
#[derive(Debug)]
pub struct UiState {
    pub dirty: bool,
    pub dragging: bool,
    pub window_focused: bool,
    pub window_visible: bool,
    pub hovered_button: Option<HitZone>,
    pub hovered_row: Option<usize>,
    pub search_query: String,
    pub search_focused: bool,
    pub search_cursor_visible: bool,
    pub current_view: AppView,
    pub autostart_enabled: bool,
    pub confirm_clear: bool,
}

/// The resize direction of a border zone.
pub open spec fn spec_resize_dir(zone: HitZone) -> Option<ResizeDir> {
    match zone {
        HitZone::ResizeLeft => Some(ResizeDir::West),
        HitZone::ResizeRight => Some(ResizeDir::East),
        HitZone::ResizeTop => Some(ResizeDir::North),
        HitZone::ResizeBottom => Some(ResizeDir::South),
        HitZone::ResizeTopLeft => Some(ResizeDir::NorthWest),
        HitZone::ResizeTopRight => Some(ResizeDir::NorthEast),
        HitZone::ResizeBottomLeft => Some(ResizeDir::SouthWest),
        HitZone::ResizeBottomRight => Some(ResizeDir::SouthEast),
        _ => None,
    }
}

pub fn resize_dir(zone: HitZone) -> (r: Option<ResizeDir>)
    ensures
        r == spec_resize_dir(zone),
{
    match zone {
        HitZone::ResizeLeft => Some(ResizeDir::West),
        HitZone::ResizeRight => Some(ResizeDir::East),
        HitZone::ResizeTop => Some(ResizeDir::North),
        HitZone::ResizeBottom => Some(ResizeDir::South),
        HitZone::ResizeTopLeft => Some(ResizeDir::NorthWest),
        HitZone::ResizeTopRight => Some(ResizeDir::NorthEast),
        HitZone::ResizeBottomLeft => Some(ResizeDir::SouthWest),
        HitZone::ResizeBottomRight => Some(ResizeDir::SouthEast),
        _ => None,
    }
}

/// The pointer shape over a zone: resize arrows on the borders.
pub open spec fn spec_cursor_for_zone(zone: HitZone) -> CursorShape {
    match zone {
        HitZone::ResizeLeft | HitZone::ResizeRight => CursorShape::EwResize,
        HitZone::ResizeTop | HitZone::ResizeBottom => CursorShape::NsResize,
        HitZone::ResizeTopLeft | HitZone::ResizeBottomRight => CursorShape::NwseResize,
        HitZone::ResizeTopRight | HitZone::ResizeBottomLeft => CursorShape::NeswResize,
        _ => CursorShape::Default,
    }
}

pub fn cursor_for_zone(zone: HitZone) -> (r: CursorShape)
    ensures
        r == spec_cursor_for_zone(zone),
{
    match zone {
        HitZone::ResizeLeft | HitZone::ResizeRight => CursorShape::EwResize,
        HitZone::ResizeTop | HitZone::ResizeBottom => CursorShape::NsResize,
        HitZone::ResizeTopLeft | HitZone::ResizeBottomRight => CursorShape::NwseResize,
        HitZone::ResizeTopRight | HitZone::ResizeBottomLeft => CursorShape::NeswResize,
        _ => CursorShape::Default,
    }
}

/// The title-bar button that gets the hover highlight for a zone.
pub open spec fn spec_hover_button(zone: HitZone) -> Option<HitZone> {
    match zone {
        HitZone::CloseButton | HitZone::MinimizeButton | HitZone::SettingsButton => Some(zone),
        _ => None,
    }
}

/// How the hovered title-bar zone is drawn.
pub open spec fn spec_hovered_title_button(b: Option<HitZone>) -> HoveredTitleButton {
    match b {
        Some(HitZone::CloseButton) => HoveredTitleButton::Close,
        Some(HitZone::MinimizeButton) => HoveredTitleButton::Minimize,
        Some(HitZone::SettingsButton) => HoveredTitleButton::Settings,
        _ => HoveredTitleButton::NoButton,
    }
}

pub fn hovered_title_button(b: Option<HitZone>) -> (r: HoveredTitleButton)
    ensures
        r == spec_hovered_title_button(b),
{
    match b {
        Some(HitZone::CloseButton) => HoveredTitleButton::Close,
        Some(HitZone::MinimizeButton) => HoveredTitleButton::Minimize,
        Some(HitZone::SettingsButton) => HoveredTitleButton::Settings,
        _ => HoveredTitleButton::NoButton,
    }
}

/// Number of section gaps above settings row `row`.
pub open spec fn spec_settings_gap_count(row: usize) -> usize {
    if row <= 1 { 0 } else if row <= 3 { 1 } else if row <= 5 { 2 } else { 3 }
}

/// Number of section gaps above settings row `row` (rows 0–1 general,
/// 2–3 tracking, 4–5 data, then the back row).
pub fn settings_gap_count(row: usize) -> (r: usize)
    ensures
        r == spec_settings_gap_count(row),
{
    match row {
        0 | 1 => 0,
        2 | 3 => 1,
        4 | 5 => 2,
        _ => 3,
    }
}

/// When to wake up after a frame: soon while the hover animation runs,
/// every half second while the search cursor blinks, every second while
/// the window is shown and focused (to advance the counters), otherwise
/// only on events.
pub open spec fn spec_next_wakeup(animating: bool, search_focused: bool, visible: bool, focused: bool) -> Wakeup {
    if animating {
        Wakeup::AfterMillis(16)
    } else if search_focused {
        Wakeup::AfterMillis(500)
    } else if visible && focused {
        Wakeup::AfterMillis(1000)
    } else {
        Wakeup::Wait
    }
}

pub fn next_wakeup(animating: bool, search_focused: bool, visible: bool, focused: bool) -> (r: Wakeup)
    ensures
        r == spec_next_wakeup(animating, search_focused, visible, focused),
{
    if animating {
        Wakeup::AfterMillis(16)
    } else if search_focused {
        Wakeup::AfterMillis(500)
    } else if visible && focused {
        Wakeup::AfterMillis(1000)
    } else {
        Wakeup::Wait
    }
}

/// The view that the settings button switches to.
pub open spec fn spec_toggle_settings(v: AppView) -> AppView {
    match v {
        AppView::Settings => AppView::List,
        _ => AppView::Settings,
    }
}

/// The idle threshold after a click on one of its buttons: one minute
/// less (not below 1) or more (not above 30).
pub open spec fn spec_adjust_idle(mins: u32, b: IdleButton) -> u32 {
    match b {
        IdleButton::Minus => if mins > MIN_IDLE_MINS { (mins - 1) as u32 } else { mins },
        IdleButton::Plus => if mins < MAX_IDLE_MINS { (mins + 1) as u32 } else { mins },
        IdleButton::Neither => mins,
    }
}

/// `String::pop`: removes the last character, if any.
#[verifier::external_body]
fn string_pop(s: &mut String) -> (r: Option<char>)
    ensures
        old(s)@.len() == 0 ==> final(s)@ == old(s)@ && r is None,
        old(s)@.len() > 0 ==> final(s)@ == old(s)@.drop_last() && r == Some(old(s)@.last()),
{
    s.pop()
}

/// The effect of a press on settings row `row` when the click landed on
/// `hit`: the new state, configuration and action.
pub open spec fn spec_settings_press(s: UiState, c: Config, row: usize, hit: SettingsHit) -> (UiState, Config, PressAction) {
    if row == 0 {
        (UiState { autostart_enabled: !s.autostart_enabled, dirty: true, ..s }, c, PressAction::WriteAutostart(!s.autostart_enabled))
    } else if row == 1 {
        (UiState { dirty: true, ..s }, Config { start_minimized: !c.start_minimized, ..c }, PressAction::SaveConfig)
    } else if row == 2 {
        (UiState { dirty: true, ..s }, Config { idle_threshold_mins: spec_adjust_idle(c.idle_threshold_mins, hit.idle_button), ..c }, PressAction::SaveConfig)
    } else if row == 3 {
        (UiState { dirty: true, ..s }, Config { show_seconds: !c.show_seconds, ..c }, PressAction::SaveConfig)
    } else if row == 4 {
        if s.confirm_clear {
            match hit.confirm {
                ConfirmChoice::Yes => (UiState { confirm_clear: false, dirty: true, ..s }, c, PressAction::ClearHistory),
                ConfirmChoice::Cancel => (UiState { confirm_clear: false, dirty: true, ..s }, c, PressAction::Nothing),
                ConfirmChoice::Neither => (s, c, PressAction::Nothing),
            }
        } else {
            (UiState { confirm_clear: true, dirty: true, ..s }, c, PressAction::Nothing)
        }
    } else if row == 5 {
        (s, c, PressAction::OpenDataFolder)
    } else if row == 6 {
        (UiState { current_view: AppView::List, hovered_row: None, dirty: true, ..s }, c, PressAction::Nothing)
    } else {
        (s, c, PressAction::Nothing)
    }
}

/// The effect of a left-button press on `zone`.
pub open spec fn spec_press(s: UiState, c: Config, zone: HitZone, hit: SettingsHit) -> (UiState, Config, PressAction) {
    match zone {
        HitZone::CloseButton => (UiState { window_visible: false, ..s }, c, PressAction::HideWindow),
        HitZone::MinimizeButton => (s, c, PressAction::Minimize),
        HitZone::SettingsButton => (
            UiState {
                current_view: spec_toggle_settings(s.current_view),
                search_focused: false,
                hovered_row: None,
                confirm_clear: false,
                dirty: true,
                ..s
            },
            c,
            PressAction::Nothing,
        ),
        HitZone::SearchField => (
            UiState { search_focused: true, search_cursor_visible: true, dirty: true, ..s },
            c,
            PressAction::ResetCursorBlink,
        ),
        HitZone::SearchClear => (
            UiState { search_query: s.search_query, search_focused: true, search_cursor_visible: true, dirty: true, ..s },
            c,
            PressAction::ResetCursorBlink,
        ),
        _ => {
            if spec_resize_dir(zone) is Some {
                (s, c, PressAction::DragResize(spec_resize_dir(zone).unwrap()))
            } else if zone == HitZone::Client && s.current_view == AppView::Settings {
                match hit.row {
                    Some(row) => spec_settings_press(s, c, row, hit),
                    None => (s, c, PressAction::Nothing),
                }
            } else if s.search_focused {
                (UiState { search_focused: false, dirty: true, ..s }, c, PressAction::StartDrag)
            } else {
                (s, c, PressAction::StartDrag)
            }
        },
    }
}

impl UiState {
    /// The state of a new window: nothing hovered, empty search, list view.
    pub fn new(autostart_enabled: bool) -> (r: Self)
        ensures
            r.dirty,
            !r.dragging,
            !r.window_focused,
            !r.window_visible,
            r.hovered_button is None,
            r.hovered_row is None,
            r.search_query@.len() == 0,
            !r.search_focused,
            r.search_cursor_visible,
            r.current_view == AppView::List,
            r.autostart_enabled == autostart_enabled,
            !r.confirm_clear,
    {
        UiState {
            dirty: true,
            dragging: false,
            window_focused: false,
            window_visible: false,
            hovered_button: None,
            hovered_row: None,
            search_query: String::new(),
            search_focused: false,
            search_cursor_visible: true,
            current_view: AppView::List,
            autostart_enabled,
            confirm_clear: false,
        }
    }

    /// The window was created; it stays hidden when configured to start
    /// minimized. Returns whether to hide it.
    pub fn resumed(&mut self, start_minimized: bool) -> (hide: bool)
        ensures
            hide == start_minimized,
            *final(self) == (UiState { window_visible: !start_minimized, dirty: true, ..*old(self) }),
    {
        self.window_visible = !start_minimized;
        self.dirty = true;
        start_minimized
    }

    /// The close button of the system was used: the window hides to the
    /// tray.
    pub fn close_requested(&mut self)
        ensures
            *final(self) == (UiState { window_visible: false, ..*old(self) }),
    {
        self.window_visible = false;
    }

    /// The window gained or lost the keyboard focus. Returns when to wake
    /// up next: every second while focused, else only on events.
    pub fn focus_changed(&mut self, focused: bool) -> (w: Wakeup)
        ensures
            *final(self) == (UiState { window_focused: focused, dirty: old(self).dirty || focused, ..*old(self) }),
            w == (if focused { Wakeup::AfterMillis(1000) } else { Wakeup::Wait }),
    {
        self.window_focused = focused;
        if focused {
            self.dirty = true;
            Wakeup::AfterMillis(1000)
        } else {
            Wakeup::Wait
        }
    }

    /// A frame was drawn.
    pub fn redrawn(&mut self)
        ensures
            *final(self) == (UiState { dirty: false, ..*old(self) }),
    {
        self.dirty = false;
    }

    /// The left button was released.
    pub fn released(&mut self)
        ensures
            *final(self) == (UiState { dragging: false, ..*old(self) }),
    {
        self.dragging = false;
    }

    /// The left button was pressed on `zone` (`hit` tells where on the
    /// settings page). Changes the state and the configuration and returns
    /// what the application must do.
    #[verifier::spinoff_prover]
    #[verifier::rlimit(40)]
    pub fn press(&mut self, config: &mut Config, zone: HitZone, hit: SettingsHit) -> (a: PressAction)
        ensures
            ({
                let (s2, c2, a2) = spec_press(*old(self), *old(config), zone, hit);
                &&& final(self).search_query@ == (if zone == HitZone::SearchClear { Seq::<char>::empty() } else { old(self).search_query@ })
                &&& (UiState { search_query: s2.search_query, ..*final(self) }) == s2
                &&& *final(config) == c2
                &&& a == a2
            }),
    {
        match zone {
            HitZone::CloseButton => {
                self.window_visible = false;
                PressAction::HideWindow
            },
            HitZone::MinimizeButton => PressAction::Minimize,
            HitZone::SettingsButton => {
                self.current_view = match self.current_view {
                    AppView::Settings => AppView::List,
                    _ => AppView::Settings,
                };
                self.search_focused = false;
                self.hovered_row = None;
                self.confirm_clear = false;
                self.dirty = true;
                PressAction::Nothing
            },
            HitZone::SearchField => {
                self.search_focused = true;
                self.search_cursor_visible = true;
                self.dirty = true;
                PressAction::ResetCursorBlink
            },
            HitZone::SearchClear => {
                self.search_query = String::new();
                self.search_focused = true;
                self.search_cursor_visible = true;
                self.dirty = true;
                PressAction::ResetCursorBlink
            },
            _ => {
                match resize_dir(zone) {
                    Some(d) => PressAction::DragResize(d),
                    None => {
                        if zone == HitZone::Client && self.current_view == AppView::Settings {
                            match hit.row {
                                Some(row) => self.settings_press(config, row, hit),
                                None => PressAction::Nothing,
                            }
                        } else {
                            if self.search_focused {
                                self.search_focused = false;
                                self.dirty = true;
                            }
                            PressAction::StartDrag
                        }
                    },
                }
            },
        }
    }

    fn settings_press(&mut self, config: &mut Config, row: usize, hit: SettingsHit) -> (a: PressAction)
        ensures
            (*final(self), *final(config), a) == spec_settings_press(*old(self), *old(config), row, hit),
    {
        if row == 0 {
            self.autostart_enabled = !self.autostart_enabled;
            self.dirty = true;
            PressAction::WriteAutostart(self.autostart_enabled)
        } else if row == 1 {
            config.start_minimized = !config.start_minimized;
            self.dirty = true;
            PressAction::SaveConfig
        } else if row == 2 {
            match hit.idle_button {
                IdleButton::Minus => {
                    if config.idle_threshold_mins > MIN_IDLE_MINS {
                        config.idle_threshold_mins = config.idle_threshold_mins - 1;
                    }
                },
                IdleButton::Plus => {
                    if config.idle_threshold_mins < MAX_IDLE_MINS {
                        config.idle_threshold_mins = config.idle_threshold_mins + 1;
                    }
                },
                IdleButton::Neither => {},
            }
            self.dirty = true;
            PressAction::SaveConfig
        } else if row == 3 {
            config.show_seconds = !config.show_seconds;
            self.dirty = true;
            PressAction::SaveConfig
        } else if row == 4 {
            if self.confirm_clear {
                match hit.confirm {
                    ConfirmChoice::Yes => {
                        self.confirm_clear = false;
                        self.dirty = true;
                        PressAction::ClearHistory
                    },
                    ConfirmChoice::Cancel => {
                        self.confirm_clear = false;
                        self.dirty = true;
                        PressAction::Nothing
                    },
                    ConfirmChoice::Neither => PressAction::Nothing,
                }
            } else {
                self.confirm_clear = true;
                self.dirty = true;
                PressAction::Nothing
            }
        } else if row == 5 {
            PressAction::OpenDataFolder
        } else if row == 6 {
            self.current_view = AppView::List;
            self.hovered_row = None;
            self.dirty = true;
            PressAction::Nothing
        } else {
            PressAction::Nothing
        }
    }

    /// The pointer moved over `zone`; `row` is the list or settings row
    /// under it for the current view (ignored on the chart page). Returns
    /// whether a redraw is needed now.
    pub fn cursor_moved(&mut self, zone: HitZone, row: Option<usize>) -> (redraw: bool)
        ensures
            ({
                let hb = spec_hover_button(zone);
                let row_tracked = old(self).current_view != AppView::Chart;
                let row_changed = row_tracked && row != old(self).hovered_row;
                &&& final(self).hovered_button == hb
                &&& final(self).hovered_row == (if row_tracked { row } else { old(self).hovered_row })
                &&& redraw == (hb != old(self).hovered_button || row_changed)
                &&& final(self).dirty == (old(self).dirty || redraw)
                &&& (UiState { hovered_button: old(self).hovered_button, hovered_row: old(self).hovered_row, dirty: old(self).dirty, ..*final(self) }) == *old(self)
            }),
    {
        let mut redraw = false;
        let new_hover = match zone {
            HitZone::CloseButton | HitZone::MinimizeButton | HitZone::SettingsButton => Some(zone),
            _ => None,
        };
        if new_hover != self.hovered_button {
            self.hovered_button = new_hover;
            self.dirty = true;
            redraw = true;
        }
        if self.current_view != AppView::Chart {
            if row != self.hovered_row {
                self.hovered_row = row;
                self.dirty = true;
                redraw = true;
            }
        }
        redraw
    }

    /// The pointer left the window: hover ends. Returns whether a redraw
    /// is needed now.
    pub fn cursor_left(&mut self) -> (redraw: bool)
        ensures
            redraw == (old(self).hovered_button is Some || old(self).hovered_row is Some),
            *final(self) == (UiState { hovered_button: None, hovered_row: None, dirty: old(self).dirty || redraw, ..*old(self) }),
    {
        let mut redraw = false;
        if self.hovered_button.is_some() {
            self.hovered_button = None;
            self.dirty = true;
            redraw = true;
        }
        if self.hovered_row.is_some() {
            self.hovered_row = None;
            self.dirty = true;
            redraw = true;
        }
        redraw
    }

    /// A key was pressed. Only the search box takes keys: Backspace
    /// deletes the last character, Escape and Enter leave the box, other
    /// keys type their text. Returns whether the cursor blinking restarts.
    pub fn key_pressed(&mut self, key: KeyInput) -> (reset_blink: bool)
        ensures
            !old(self).search_focused ==> *final(self) == *old(self) && !reset_blink,
            old(self).search_focused ==> (match key {
                KeyInput::Backspace => {
                    &&& final(self).search_query@ == (if old(self).search_query@.len() > 0 { old(self).search_query@.drop_last() } else { old(self).search_query@ })
                    &&& (UiState { search_query: old(self).search_query, ..*final(self) }) == (UiState { dirty: true, ..*old(self) })
                    &&& !reset_blink
                },
                KeyInput::Escape | KeyInput::Enter => {
                    &&& *final(self) == (UiState { search_focused: false, dirty: true, ..*old(self) })
                    &&& !reset_blink
                },
                KeyInput::Other(t) => if t matches Some(text) && text@.len() > 0 {
                    &&& final(self).search_query@ == old(self).search_query@ + t.unwrap()@
                    &&& (UiState { search_query: old(self).search_query, ..*final(self) }) == (UiState { search_cursor_visible: true, dirty: true, ..*old(self) })
                    &&& reset_blink
                } else {
                    &&& *final(self) == *old(self)
                    &&& !reset_blink
                },
            }),
    {
        if !self.search_focused {
            return false;
        }
        match key {
            KeyInput::Backspace => {
                let _ = string_pop(&mut self.search_query);
                self.dirty = true;
                false
            },
            KeyInput::Escape | KeyInput::Enter => {
                self.search_focused = false;
                self.dirty = true;
                false
            },
            KeyInput::Other(t) => {
                match t {
                    Some(text) => {
                        if !text.as_str().is_empty() {
                            self.search_query.append(text.as_str());
                            self.search_cursor_visible = true;
                            self.dirty = true;
                            true
                        } else {
                            false
                        }
                    },
                    None => false,
                }
            },
        }
    }

    /// An event from the aggregator or the tray menu.
    pub fn user_event(&mut self, ev: UserEvent, has_window: bool) -> (a: Option<UserAction>)
        ensures
            ev == UserEvent::DataUpdated ==> *final(self) == (UiState { dirty: true, ..*old(self) }) && a == Some(UserAction::Redraw),
            ev == UserEvent::ShowWindow && has_window ==> *final(self) == (UiState { window_visible: true, dirty: true, ..*old(self) }) && a == Some(UserAction::ShowWindow),
            ev == UserEvent::ShowWindow && !has_window ==> *final(self) == *old(self) && a is None,
            ev == UserEvent::ExitRequested ==> *final(self) == *old(self) && a == Some(UserAction::Exit),
    {
        match ev {
            UserEvent::DataUpdated => {
                self.dirty = true;
                Some(UserAction::Redraw)
            },
            UserEvent::ShowWindow => {
                if !has_window {
                    return None;
                }
                self.window_visible = true;
                self.dirty = true;
                Some(UserAction::ShowWindow)
            },
            UserEvent::ExitRequested => Some(UserAction::Exit),
        }
    }

    /// Before drawing a frame: toggles the search cursor when its blink
    /// period is over (returns whether it did, so that the caller restarts
    /// the period) and drops a hovered row that the `rows`-long list no
    /// longer has.
    pub fn before_redraw(&mut self, blink_due: bool, rows: usize) -> (toggled: bool)
        ensures
            toggled == (old(self).search_focused && blink_due),
            final(self).search_cursor_visible == (if toggled { !old(self).search_cursor_visible } else { old(self).search_cursor_visible }),
            final(self).hovered_row == (match old(self).hovered_row {
                Some(r) => if r >= rows { None } else { Some(r) },
                None => None,
            }),
            (UiState { search_cursor_visible: old(self).search_cursor_visible, hovered_row: old(self).hovered_row, ..*final(self) }) == *old(self),
    {
        let toggled = self.search_focused && blink_due;
        if toggled {
            self.search_cursor_visible = !self.search_cursor_visible;
        }
        match self.hovered_row {
            Some(r) => {
                if r >= rows {
                    self.hovered_row = None;
                }
            },
            None => {},
        }
        toggled
    }
}


/// Name of a result of `str::to_lowercase` (Unicode lower case).
pub uninterp spec fn lowercase(s: Seq<char>) -> Seq<char>;

/// `str::to_lowercase`.
#[verifier::external_body]
fn str_to_lowercase(s: &str) -> (r: String)
    ensures
        r@ == lowercase(s@),
{
    s.to_lowercase()
}

/// `needle` occurs in `hay` as a contiguous run.
pub open spec fn contains_seq(hay: Seq<char>, needle: Seq<char>) -> bool {
    exists|i: int| 0 <= i && i + needle.len() <= hay.len() && #[trigger] hay.subrange(i, i + needle.len()) == needle
}

fn chars_of(s: &str) -> (r: Vec<char>)
    ensures
        r@ == s@,
{
    let n = s.unicode_len();
    let mut r: Vec<char> = Vec::new();
    let mut i: usize = 0;
    while i < n
        invariant
            n == s@.len(),
            i <= n,
            r@ == s@.subrange(0, i as int),
        decreases n - i,
    {
        r.push(s.get_char(i));
        i = i + 1;
        assert(r@ =~= s@.subrange(0, i as int));
    }
    assert(r@ =~= s@);
    r
}

fn matches_at(hay: &Vec<char>, needle: &Vec<char>, i: usize) -> (r: bool)
    requires
        i + needle@.len() <= hay@.len(),
    ensures
        r == (hay@.subrange(i as int, i + needle@.len()) == needle@),
{
    let hl = hay.len();
    let mut j: usize = 0;
    while j < needle.len()
        invariant
            hl == hay@.len(),
            i + needle@.len() <= hay@.len(),
            j <= needle@.len(),
            forall|k: int| 0 <= k < j ==> hay@[i + k] == needle@[k],
        decreases needle@.len() - j,
    {
        if hay[i + j] != needle[j] {
            assert(hay@.subrange(i as int, i + needle@.len())[j as int] != needle@[j as int]);
            return false;
        }
        j = j + 1;
    }
    assert(hay@.subrange(i as int, i + needle@.len()) =~= needle@);
    true
}

/// Whether `needle` occurs in `hay` (`str::contains` with a `&str`).
pub fn str_contains(hay: &str, needle: &str) -> (r: bool)
    ensures
        r == contains_seq(hay@, needle@),
{
    let h = chars_of(hay);
    let n = chars_of(needle);
    if n.len() > h.len() {
        return false;
    }
    let last = h.len() - n.len();
    let mut i: usize = 0;
    while i <= last
        invariant
            h@ == hay@,
            n@ == needle@,
            last == h@.len() - n@.len(),
            i <= last + 1,
            forall|k: int| 0 <= k < i ==> #[trigger] h@.subrange(k, k + n@.len()) != n@,
        decreases last + 1 - i,
    {
        if matches_at(&h, &n, i) {
            return true;
        }
        if i == last {
            return false;
        }
        i = i + 1;
    }
    false
}

/// Whether a row's name contains the search query, ignoring case.
pub open spec fn row_matches(a: AppUsage, query: Seq<char>) -> bool {
    contains_seq(lowercase(a.name@), lowercase(query))
}

/// The rows that match the query, in their order.
pub open spec fn matching_rows(rows: Seq<AppUsage>, query: Seq<char>) -> Seq<AppUsage>
    decreases rows.len(),
{
    if rows.len() == 0 {
        Seq::empty()
    } else {
        matching_rows(rows.drop_last(), query) + if row_matches(rows.last(), query) {
            seq![rows.last()]
        } else {
            Seq::empty()
        }
    }
}

/// The usage rows that the list shows for the search query: all of them
/// for an empty query, else those whose name contains the query, case
/// ignored.
pub fn filter_usage(usage: Vec<AppUsage>, query: &String) -> (r: Vec<AppUsage>)
    ensures
        query@.len() == 0 ==> r@ == usage@,
        query@.len() > 0 ==> r@ == matching_rows(usage@, query@),
{
    if query.as_str().is_empty() {
        return usage;
    }
    let q = str_to_lowercase(query.as_str());
    let ghost all = usage@;
    let mut rest = usage;
    let mut out: Vec<AppUsage> = Vec::new();
    let ghost mut done: Seq<AppUsage> = Seq::empty();
    while rest.len() > 0
        invariant
            q@ == lowercase(query@),
            all == done + rest@,
            out@ == matching_rows(done, query@),
        decreases rest@.len(),
    {
        let a = rest.remove(0);
        let name = str_to_lowercase(a.name.as_str());
        let keep = str_contains(name.as_str(), q.as_str());
        proof {
            let d2 = done.push(a);
            assert(d2.drop_last() =~= done);
            assert(all =~= d2 + rest@);
            done = d2;
        }
        if keep {
            out.push(a);
        }
        assert(out@ =~= matching_rows(done, query@));
    }
    assert(done =~= all);
    out
}


/// Law: the search keeps exactly the rows whose lower-cased name contains
/// the lower-cased query at some position, and nothing else: every kept
/// row is one of the rows and contains it, and every row that contains it
/// is kept.
pub proof fn lemma_search_keeps_substring_matches(rows: Seq<AppUsage>, query: Seq<char>)
    ensures
        forall|a: AppUsage| #[trigger] matching_rows(rows, query).contains(a) ==> rows.contains(a)
            && exists|i: int| 0 <= i && i + lowercase(query).len() <= lowercase(a.name@).len()
                && #[trigger] lowercase(a.name@).subrange(i, i + lowercase(query).len()) == lowercase(query),
        forall|k: int, i: int| 0 <= k < rows.len() && 0 <= i && i + lowercase(query).len() <= lowercase(rows[k].name@).len()
            && #[trigger] lowercase(rows[k].name@).subrange(i, i + lowercase(query).len()) == lowercase(query)
            ==> matching_rows(rows, query).contains(rows[k]),
    decreases rows.len(),
{
    if rows.len() > 0 {
        let init = rows.drop_last();
        lemma_search_keeps_substring_matches(init, query);
        let q = lowercase(query);
        let last = rows.last();
        let tail: Seq<AppUsage> = if row_matches(last, query) { seq![last] } else { Seq::empty() };
        assert(matching_rows(rows, query) == matching_rows(init, query) + tail);
        assert forall|a: AppUsage| #[trigger] matching_rows(rows, query).contains(a) implies rows.contains(a)
            && exists|i: int| 0 <= i && i + q.len() <= lowercase(a.name@).len()
                && #[trigger] lowercase(a.name@).subrange(i, i + q.len()) == q by {
            let j = choose|j: int| 0 <= j < matching_rows(rows, query).len() && matching_rows(rows, query)[j] == a;
            if j < matching_rows(init, query).len() {
                assert(matching_rows(init, query)[j] == a);
                assert(matching_rows(init, query).contains(a));
                let t = choose|t: int| 0 <= t < init.len() && init[t] == a;
                assert(rows[t] == a);
            } else {
                assert(a == last);
                assert(rows[rows.len() - 1] == a);
                assert(row_matches(last, query));
            }
        }
        assert forall|k: int, i: int| 0 <= k < rows.len() && 0 <= i && i + q.len() <= lowercase(rows[k].name@).len()
            && #[trigger] lowercase(rows[k].name@).subrange(i, i + q.len()) == q
            implies matching_rows(rows, query).contains(rows[k]) by {
            if k < rows.len() - 1 {
                assert(init[k] == rows[k]);
                assert(matching_rows(init, query).contains(init[k]));
                let j = choose|j: int| 0 <= j < matching_rows(init, query).len() && matching_rows(init, query)[j] == rows[k];
                assert(matching_rows(rows, query)[j] == rows[k]);
            } else {
                assert(rows[k] == last);
                assert(contains_seq(lowercase(last.name@), q));
                assert(row_matches(last, query));
                assert(matching_rows(rows, query)[matching_rows(init, query).len() as int] == last);
            }
        }
    }
}

/// Law: a click on the first settings row toggles launching at login:
/// the flag becomes the negation of what it was, the requested write
/// carries the new flag, and the configuration is untouched; a second
/// click gives the flag back.
pub proof fn lemma_autostart_row_toggles(s: UiState, c: Config, hit: SettingsHit)
    requires
        s.current_view == AppView::Settings,
        hit.row == Some(0usize),
    ensures
        ({
            let (s2, c2, a) = spec_press(s, c, HitZone::Client, hit);
            let (s3, c3, a3) = spec_press(s2, c2, HitZone::Client, hit);
            &&& s2.autostart_enabled == !s.autostart_enabled
            &&& a == PressAction::WriteAutostart(s2.autostart_enabled)
            &&& c2 == c
            &&& s2.current_view == AppView::Settings
            &&& s3.autostart_enabled == s.autostart_enabled
            &&& a3 == PressAction::WriteAutostart(s.autostart_enabled)
        }),
{
}

/// Law: the idle-threshold buttons keep the threshold within 1..=30
/// minutes once it is there, and never move it by more than a minute.
pub proof fn lemma_idle_threshold_in_range(mins: u32, b: IdleButton)
    ensures
        MIN_IDLE_MINS <= mins <= MAX_IDLE_MINS ==> MIN_IDLE_MINS <= spec_adjust_idle(mins, b) <= MAX_IDLE_MINS,
        spec_adjust_idle(mins, b) == mins || spec_adjust_idle(mins, b) == mins + 1 || spec_adjust_idle(mins, b) == mins - 1,
{
}

/// Law: only the clear-history confirmation's "Yes" asks to clear the
/// history, and only when the confirmation was showing; the first click
/// on the row only shows it.
pub proof fn lemma_clear_needs_confirmation(s: UiState, c: Config, zone: HitZone, hit: SettingsHit)
    ensures
        spec_press(s, c, zone, hit).2 == PressAction::ClearHistory ==> {
            &&& s.confirm_clear
            &&& s.current_view == AppView::Settings
            &&& zone == HitZone::Client
            &&& hit.row == Some(4usize)
            &&& hit.confirm == ConfirmChoice::Yes
            &&& !spec_press(s, c, zone, hit).0.confirm_clear
        },
{
}

/// `".exe"`.
pub open spec fn exe_suffix() -> Seq<char> {
    seq!['.', 'e', 'x', 'e']
}

/// The name shown for an application: its executable name without a
/// trailing `.exe` (matched exactly, as `strip_suffix` does).
pub open spec fn spec_display_name(name: Seq<char>) -> Seq<char> {
    if name.len() >= 4 && name.subrange(name.len() - 4, name.len() as int) == exe_suffix() {
        name.subrange(0, name.len() - 4)
    } else {
        name
    }
}

/// The name shown in the list and the chart legend for `name`.
pub fn display_name(name: &str) -> (r: String)
    ensures
        r@ == spec_display_name(name@),
{
    let n = name.unicode_len();
    if n >= 4 && name.get_char(n - 4) == '.' && name.get_char(n - 3) == 'e' && name.get_char(n - 2) == 'x'
        && name.get_char(n - 1) == 'e' {
        assert(name@.subrange(n - 4, n as int) =~= exe_suffix());
        name.substring_char(0, n - 4).to_owned()
    } else {
        proof {
            if n >= 4 && name@.subrange(n - 4, n as int) == exe_suffix() {
                let t = name@.subrange(n - 4, n as int);
                assert(t[0] == name@[n - 4] && t[1] == name@[n - 3] && t[2] == name@[n - 2] && t[3] == name@[n - 1]);
            }
        }
        name.to_owned()
    }
}

/// Name of a result of chrono's `NaiveDate::parse_from_str`, as a date.
pub uninterp spec fn parsed_date(s: Seq<char>, fmt: Seq<char>) -> Option<CivilDate>;

/// Days from 1970-01-01 to `d` in the proleptic Gregorian calendar
/// (years counted from March, so that leap days fall at a year's end).
pub open spec fn day_number(d: CivilDate) -> int {
    let y = if d.month <= 2 { d.year - 1 } else { d.year as int };
    let mp = if d.month > 2 { d.month - 3 } else { d.month + 9 };
    365 * y + y / 4 - y / 100 + y / 400 + (153 * mp + 2) / 5 + d.day - 1 - 719468
}

/// The day of the week of `d`, 0 for Monday (1970-01-01 was a Thursday).
pub open spec fn weekday_index(d: CivilDate) -> int {
    (day_number(d) + 3) % 7
}

/// The English three-letter name of weekday `i` (0 for Monday), as `%a`
/// writes it.
pub open spec fn weekday_abbr(i: int) -> Seq<char> {
    if i == 0 { seq!['M', 'o', 'n'] }
    else if i == 1 { seq!['T', 'u', 'e'] }
    else if i == 2 { seq!['W', 'e', 'd'] }
    else if i == 3 { seq!['T', 'h', 'u'] }
    else if i == 4 { seq!['F', 'r', 'i'] }
    else if i == 5 { seq!['S', 'a', 't'] }
    else { seq!['S', 'u', 'n'] }
}

/// The text of `%a %m/%d` for `d`: weekday, then month and day as two
/// digits each (as in `Thu 03/14`).
pub open spec fn spec_day_label(d: CivilDate) -> Seq<char> {
    weekday_abbr(weekday_index(d)) + seq![' '] + decimal_pad2(d.month as nat) + seq!['/'] + decimal_pad2(d.day as nat)
}

/// The format of the dates that storage reports per day, `%Y-%m-%d`.
pub open spec fn ymd_format() -> Seq<char> {
    seq!['%', 'Y', '-', '%', 'm', '-', '%', 'd']
}

/// The format of a chart label, `%a %m/%d` (as in `Mon 03/14`).
pub open spec fn day_label_format() -> Seq<char> {
    seq!['%', 'a', ' ', '%', 'm', '/', '%', 'd']
}

/// chrono's `NaiveDate::parse_from_str`: the date that `s` spells in
/// format `fmt`, or none (the parse error is dropped). chrono only yields
/// representable dates.
#[verifier::external_body]
fn parse_date(s: &str, fmt: &str) -> (r: Option<CivilDate>)
    ensures
        r == parsed_date(s@, fmt@),
        r matches Some(d) ==> valid_date(d),
{
    match NaiveDate::parse_from_str(s, fmt) {
        Ok(d) => Some(CivilDate { year: d.year(), month: d.month(), day: d.day() }),
        Err(_) => None,
    }
}

/// chrono's `NaiveDate::format`, written out as a `String`, for a valid
/// date and the chart label format `%a %m/%d`: the English short weekday
/// name, then the zero-padded month and day. Its items are all valid, so
/// writing it out does not fail.
#[verifier::external_body]
fn format_date(d: CivilDate, fmt: &str) -> (r: String)
    requires
        valid_date(d),
        fmt@ == day_label_format(),
    ensures
        r@ == spec_day_label(d),
{
    match NaiveDate::from_ymd_opt(d.year, d.month, d.day) {
        Some(nd) => nd.format(fmt).to_string(),
        None => String::new(),
    }
}

/// Whether the first `k` characters of `s` take exactly five bytes in
/// UTF-8, that is byte 5 of `s` is the boundary before character `k`.
pub open spec fn five_byte_prefix(s: Seq<char>, k: int) -> bool {
    0 <= k <= s.len() && encode_utf8(s.take(k)).len() == 5
}

/// The text after the year of a `YYYY-MM-DD` date (`MM-DD`): everything
/// after the first five bytes of its UTF-8 encoding, when byte 5 is a
/// character boundary; else the whole text.
pub open spec fn date_tail(s: Seq<char>) -> Seq<char> {
    if exists|k: int| five_byte_prefix(s, k) {
        s.skip(choose|k: int| five_byte_prefix(s, k))
    } else {
        s
    }
}

/// The bytes of one more character add to the UTF-8 length.
proof fn lemma_encode_push(a: Seq<char>, c: char)
    ensures
        encode_utf8(a.push(c)).len() == encode_utf8(a).len() + encode_scalar(c as u32).len(),
    decreases a.len(),
{
    let b = a.push(c);
    if a.len() == 0 {
        assert(b.drop_first() =~= Seq::<char>::empty());
        assert(encode_utf8(b.drop_first()).len() == 0);
        assert(encode_utf8(a).len() == 0);
        assert(b[0] == c);
        assert(encode_utf8(b) == encode_scalar(b[0] as u32) + encode_utf8(b.drop_first()));
    } else {
        assert(b.drop_first() =~= a.drop_first().push(c));
        assert(b[0] == a[0]);
        lemma_encode_push(a.drop_first(), c);
        assert(encode_utf8(b) == encode_scalar(b[0] as u32) + encode_utf8(b.drop_first()));
        assert(encode_utf8(a) == encode_scalar(a[0] as u32) + encode_utf8(a.drop_first()));
    }
}

/// Longer prefixes take more bytes: at least one per character.
proof fn lemma_prefix_bytes_grow(s: Seq<char>, k1: int, k2: int)
    requires
        0 <= k1 <= k2 <= s.len(),
    ensures
        encode_utf8(s.take(k1)).len() + (k2 - k1) <= encode_utf8(s.take(k2)).len(),
    decreases k2 - k1,
{
    if k1 < k2 {
        lemma_prefix_bytes_grow(s, k1, k2 - 1);
        assert(s.take(k2) =~= s.take(k2 - 1).push(s[k2 - 1]));
        lemma_encode_push(s.take(k2 - 1), s[k2 - 1]);
    }
}

/// The chart label of a date that does not parse: its text after the
/// first five bytes, never failing on short text or on a byte 5 inside a
/// character.
pub fn date_tail_label(date: &str) -> (r: String)
    ensures
        r@ == date_tail(date@),
{
    let n = date.unicode_len();
    let mut i: usize = 0;
    let mut bytes: usize = 0;
    while i < n && bytes < 5
        invariant
            n == date@.len(),
            i <= n,
            bytes == encode_utf8(date@.take(i as int)).len(),
            bytes <= 8,
            forall|k: int| 0 <= k < i ==> encode_utf8(#[trigger] date@.take(k)).len() < 5,
        decreases n - i,
    {
        let c = date.get_char(i);
        let v = c as u32;
        let w: usize = if v <= 0x7f { 1 } else if v <= 0x7ff { 2 } else if v <= 0xffff { 3 } else { 4 };
        proof {
            vstd::utf8::char_is_scalar(c);
            assert(date@.take(i + 1) =~= date@.take(i as int).push(c));
            lemma_encode_push(date@.take(i as int), c);
        }
        bytes = bytes + w;
        i = i + 1;
    }
    if bytes == 5 {
        proof {
            assert(five_byte_prefix(date@, i as int));
            assert forall|k: int| five_byte_prefix(date@, k) implies k == i by {
                if k < i {
                    assert(encode_utf8(date@.take(k)).len() < 5);
                } else if k > i {
                    lemma_prefix_bytes_grow(date@, i as int, k);
                }
            }
        }
        let r = date.substring_char(i, n).to_owned();
        assert(r@ =~= date@.skip(i as int));
        r
    } else {
        proof {
            assert forall|k: int| !five_byte_prefix(date@, k) by {
                if 0 <= k <= n {
                    if k < i {
                        assert(encode_utf8(date@.take(k)).len() < 5);
                    } else if k > i {
                        lemma_prefix_bytes_grow(date@, i as int, k);
                    }
                }
            }
        }
        date.to_owned()
    }
}

/// The label under a chart bar for the day `date` (`YYYY-MM-DD`):
/// weekday and month/day when it parses, else its text after the year.
pub open spec fn spec_chart_date_label(date: Seq<char>) -> Seq<char> {
    match parsed_date(date, ymd_format()) {
        Some(d) => spec_day_label(d),
        None => date_tail(date),
    }
}

/// Builds the label under a chart bar.
pub fn chart_date_label(date: &str) -> (r: String)
    ensures
        r@ == spec_chart_date_label(date@),
{
    let ymd = "%Y-%m-%d";
    let label = "%a %m/%d";
    proof {
        reveal_strlit("%Y-%m-%d");
        reveal_strlit("%a %m/%d");
        assert(ymd@ =~= ymd_format());
        assert(label@ =~= day_label_format());
    }
    match parse_date(date, ymd) {
        Some(d) => format_date(d, label),
        None => date_tail_label(date),
    }
}

/// The text of the autostart desktop entry up to the command.
pub open spec fn desktop_entry_head() -> Seq<char> {
    "[Desktop Entry]\nType=Application\nName=Lumen\nExec="@
}

/// The text of the autostart desktop entry after the command.
pub open spec fn desktop_entry_tail() -> Seq<char> {
    "\nTerminal=false\n"@
}

/// The autostart desktop entry that starts the executable `exe`.
pub fn desktop_entry(exe: &str) -> (r: String)
    ensures
        r@ == desktop_entry_head() + exe@ + desktop_entry_tail(),
{
    let mut r = String::from_str("[Desktop Entry]\nType=Application\nName=Lumen\nExec=");
    r.append(exe);
    r.append("\nTerminal=false\n");
    r
}

} // verus!
