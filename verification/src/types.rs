use vstd::prelude::*;

verus! {

/// Platform-independent window handle: an X11 window id, a Win32 `HWND`
/// or a macOS process id, widened to `usize`.
#[derive(Debug, Clone, Copy, PartialEq, Eq)]
pub struct WindowHandle(pub usize);

/// Information about the process that owns the foreground window.
#[derive(Debug, PartialEq, Eq)]
pub struct ProcessInfo {
    pub pid: u32,
    pub exe_name: String,
    pub exe_path: String,
    pub window_title: String,
    /// Handle of the window, when known (used to look up its icon).
    pub window_handle: Option<WindowHandle>,
}

impl Clone for ProcessInfo {
    fn clone(&self) -> (r: Self)
        ensures
            r == *self,
    {
        let window_handle = match self.window_handle {
            Some(h) => Some(h),
            None => None,
        };
        ProcessInfo {
            pid: self.pid,
            exe_name: self.exe_name.clone(),
            exe_path: self.exe_path.clone(),
            window_title: self.window_title.clone(),
            window_handle,
        }
    }
}

/// An application icon in straight (non-premultiplied) RGBA, row-major.
#[derive(Debug, Clone)]
pub struct AppIcon {
    pub rgba: Vec<u8>,
    pub width: u32,
    pub height: u32,
}

/// Events that the tracker hands to the storage and UI layers.
#[derive(Debug, Clone)]
pub enum TrackerEvent {
    /// The foreground process or window changed.
    WindowChanged(ProcessInfo),
    /// The user went away from the keyboard.
    IdleStarted,
    /// The user came back.
    IdleEnded,
    /// The foreground window entered exclusive fullscreen (probably a game).
    FullscreenEntered(ProcessInfo),
    FullscreenExited,
}

/// User settings.
#[derive(Debug, Clone)]
pub struct Config {
    pub idle_threshold_mins: u32,
    pub start_minimized: bool,
    pub show_seconds: bool,
}

impl Default for Config {
    fn default() -> (c: Self)
        ensures
            c.idle_threshold_mins == 5,
            !c.start_minimized,
            !c.show_seconds,
    {
        Config { idle_threshold_mins: 5, start_minimized: false, show_seconds: false }
    }
}

} // verus!
