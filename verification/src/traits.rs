//! The interfaces that each platform implements.
use vstd::prelude::*;
use core::time::Duration;
use std::sync::mpsc::Sender;
use crate::types::{AppIcon, TrackerEvent, WindowHandle};

verus! {

#[verifier::external_type_specification]
#[verifier::external_body]
#[verifier::reject_recursive_types(T)]
pub struct ExSender<T>(Sender<T>);

/// Watches the foreground window and reports its changes.
///
/// An implementation subscribes to the platform's foreground-change
/// notifications and sends events through `tx`.
pub trait ForegroundTracker: Send {
    /// Blocks: runs the platform's event loop and does not return while
    /// the platform keeps delivering events.
    fn run(self, tx: Sender<TrackerEvent>);
}

/// Measures how long the user has been idle.
pub trait IdleDetector: Send {
    /// Time since the last user input.
    fn idle_duration(&self) -> Duration;
}

/// Tells whether a window is in exclusive (or borderless) fullscreen.
pub trait FullscreenDetector {
    fn is_exclusive_fullscreen(handle: &WindowHandle) -> bool;
}

/// Looks up processes and their icons.
pub trait ProcessInfoProvider {
    /// File name of the process's executable.
    fn exe_name_by_pid(pid: u32) -> Option<String>;
    /// Full path of the process's executable.
    fn exe_full_path_by_pid(pid: u32) -> Option<String>;
    /// Title of a window.
    fn window_title(handle: &WindowHandle) -> String;
    /// Icon of the executable at `exe_path`.
    fn extract_exe_icon(exe_path: &str) -> Option<AppIcon>;
    /// Icon of a window (for instance `_NET_WM_ICON` on X11).
    fn extract_icon_by_window(handle: &WindowHandle) -> Option<AppIcon>;
}

} // verus!
