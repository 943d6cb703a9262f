//! Lumen: event-driven tracking of foreground windows, idle time and
//! fullscreen state, with per-application usage accounting.
//!
//! The modules hold the decisions of the tracker and of the window; the
//! platform calls (X11, procfs, SQLite, the window system) are made by the
//! application around the library, which hands their results in.

pub mod donut;
pub mod duration;
pub mod entries;
pub mod icon;
pub mod idle;
pub mod localtime;
pub mod pixels;
pub mod text;
pub mod tracker;
pub mod traits;
pub mod types;
pub mod ui;
pub mod usage;

pub use duration::fmt_duration;
pub use icon::{extract_exe_icon, extract_icon_by_window};
pub use idle::IdleWatcher;
pub use traits::{ForegroundTracker, FullscreenDetector, IdleDetector, ProcessInfoProvider};
pub use types::{AppIcon, Config, ProcessInfo, TrackerEvent, WindowHandle};
pub use ui::{AppView, HitZone, HoveredTitleButton, UserEvent};
pub use usage::AppUsage;
