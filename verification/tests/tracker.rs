use lumen::icon::{cg_icon_target_size, extract_exe_icon, extract_icon_by_window, gdi_icon_size_ok, gdi_icon_to_rgba, mask_row_stride, unpremultiply_rgba};
use lumen::idle::{idle_transition, IdleWatcher, POLL_INTERVAL_SECS};
use lumen::tracker::{
    activation_events, covers_monitor_fullscreen, exe_full_path_from_utf16, exe_name_from_comm, exe_name_from_path, foreground_events, foreground_info,
    handle_loginwindow, is_loginwindow, present_id, state_has_atom, window_title, x11_foreground_events,
};
use lumen::{IdleDetector, TrackerEvent};
use std::time::Duration;

#[test]
fn net_wm_icon_picks_entry_closest_to_32() {
    // 2x1 icon, then a 1x1 icon; 2x1 is closer (diff 61 vs 62)
    let data = vec![2, 1, 0xff112233, 0x80445566, 1, 1, 0x01020304];
    let icon = extract_icon_by_window(&data).unwrap();
    assert_eq!((icon.width, icon.height), (2, 1));
    assert_eq!(icon.rgba, vec![0x11, 0x22, 0x33, 0xff, 0x44, 0x55, 0x66, 0x80]);
    // a truncated entry stops the walk
    let data = vec![1, 1, 0xaabbccdd, 4, 4, 1];
    let icon = extract_icon_by_window(&data).unwrap();
    assert_eq!((icon.width, icon.height), (1, 1));
    assert_eq!(icon.rgba, vec![0xbb, 0xcc, 0xdd, 0xaa]);
    assert!(extract_icon_by_window(&vec![0, 0]).is_none());
    assert!(extract_icon_by_window(&vec![5]).is_none());
    assert!(extract_exe_icon("/usr/bin/true").is_none());
}

#[test]
fn gdi_icon_mask_and_channel_order() {
    assert!(gdi_icon_size_ok(32, 32));
    assert!(!gdi_icon_size_ok(0, 32));
    assert!(!gdi_icon_size_ok(257, 32));
    assert_eq!(mask_row_stride(2), 4);
    assert_eq!(mask_row_stride(33), 8);
    let bgra = vec![1, 2, 3, 200, 5, 6, 7, 210];
    // no mask bits: only the channel order changes
    let out = gdi_icon_to_rgba(&bgra, &vec![0, 0, 0, 0], 2, 1);
    assert_eq!(out, vec![3, 2, 1, 200, 7, 6, 5, 210]);
    // second pixel masked (bit 6 of the first byte)
    let out = gdi_icon_to_rgba(&bgra, &vec![0b0100_0000, 0, 0, 0], 2, 1);
    assert_eq!(out, vec![3, 2, 1, 200, 7, 6, 5, 0]);
}

#[test]
fn cg_icon_sizes_and_unpremultiply() {
    assert_eq!(cg_icon_target_size(0, 10), None);
    assert_eq!(cg_icon_target_size(5000, 10), None);
    assert_eq!(cg_icon_target_size(128, 10), Some((64, 64)));
    assert_eq!(cg_icon_target_size(32, 48), Some((32, 48)));
    let out = unpremultiply_rgba(&vec![64, 128, 200, 128, 10, 20, 30, 0, 10, 20, 30, 255]);
    assert_eq!(out, vec![127, 255, 255, 128, 10, 20, 30, 0, 10, 20, 30, 255]);
}

struct FixedIdle;
impl IdleDetector for FixedIdle {
    fn idle_duration(&self) -> Duration {
        Duration::from_secs(7)
    }
}

#[test]
fn idle_watcher_reports_transitions() {
    let w = IdleWatcher::new(FixedIdle);
    assert_eq!(w.poll_interval_secs(), POLL_INTERVAL_SECS);
    assert_eq!(w.detector().idle_duration(), Duration::from_secs(7));
    assert!(matches!(idle_transition(false, 299, 5), (false, None)));
    assert!(matches!(idle_transition(false, 300, 5), (true, Some(TrackerEvent::IdleStarted))));
    assert!(matches!(idle_transition(true, 400, 5), (true, None)));
    assert!(matches!(idle_transition(true, 10, 5), (false, Some(TrackerEvent::IdleEnded))));
}

#[test]
fn foreground_events_order() {
    let info = foreground_info(9, None, None, "t".to_string(), 3);
    assert_eq!(info.exe_name, "unknown");
    assert_eq!(info.exe_path, "");
    let evs = x11_foreground_events(info.clone(), true, false);
    assert!(matches!(evs.as_slice(), [TrackerEvent::WindowChanged(_), TrackerEvent::FullscreenEntered(_)]));
    let evs = x11_foreground_events(info.clone(), false, true);
    assert!(matches!(evs.as_slice(), [TrackerEvent::WindowChanged(_), TrackerEvent::FullscreenExited]));
    let evs = x11_foreground_events(info.clone(), false, false);
    assert_eq!(evs.len(), 1);
    let evs = foreground_events(info.clone(), true);
    assert!(matches!(evs.as_slice(), [TrackerEvent::FullscreenEntered(_), TrackerEvent::WindowChanged(_)]));
    assert_eq!(foreground_events(info, false).len(), 1);
    assert_eq!(present_id(Some(0)), None);
    assert_eq!(present_id(Some(5)), Some(5));
    assert_eq!(present_id(None), None);
    assert!(state_has_atom(&vec![1, 2, 3], 2));
    assert!(!state_has_atom(&vec![1, 3], 2));
}

#[test]
fn windows_fullscreen_heuristic() {
    let r = (0, 0, 1920, 1080);
    assert!(covers_monitor_fullscreen(r, r, 0x1000_0000));
    assert!(!covers_monitor_fullscreen(r, r, 0));
    assert!(!covers_monitor_fullscreen(r, r, 0x00C4_0000));
    assert!(covers_monitor_fullscreen(r, r, 0x00C0_0000));
    assert!(!covers_monitor_fullscreen((0, 0, 1920, 1040), r, 0x1000_0000));
}

#[test]
fn loginwindow_rule() {
    assert!(is_loginwindow("loginwindow"));
    assert!(is_loginwindow("LoginWindow"));
    assert!(!is_loginwindow("loginwindow2"));
    assert!(!is_loginwindow("Finder"));
    assert!(matches!(handle_loginwindow(false, "loginwindow"), (true, Some(TrackerEvent::IdleStarted), true)));
    assert!(matches!(handle_loginwindow(true, "LOGINWINDOW"), (true, None, true)));
    assert!(matches!(handle_loginwindow(true, "Finder"), (false, Some(TrackerEvent::IdleEnded), false)));
    assert!(matches!(handle_loginwindow(false, "Finder"), (false, None, false)));
}

#[test]
fn window_title_choice() {
    assert_eq!(window_title(Some("héllo".as_bytes().to_vec()), Some(b"x".to_vec())), "héllo");
    // invalid UTF-8 in _NET_WM_NAME: falls back to WM_NAME, decoded lossily
    assert_eq!(window_title(Some(vec![0xff]), Some(vec![b'a', 0xff])), "a\u{fffd}");
    assert_eq!(window_title(Some(vec![]), None), "");
    assert_eq!(window_title(None, Some(vec![])), "");
}

#[test]
fn process_names() {
    assert_eq!(exe_name_from_comm("firefox\n"), "firefox");
    assert_eq!(exe_name_from_comm("  a b \t"), "a b");
    assert_eq!(exe_name_from_comm("\n"), "");
    let buf: Vec<u16> = "C:\\x.exe".encode_utf16().chain([0, 65, 66]).collect();
    assert_eq!(exe_full_path_from_utf16(&buf, 11), "C:\\x.exe");
    assert_eq!(exe_full_path_from_utf16(&buf, 3), "C:\\");
    let bad: Vec<u16> = vec![0xd800, 65];
    assert_eq!(exe_full_path_from_utf16(&bad, 2), "\u{fffd}A");
}

#[test]
fn exe_name_is_last_path_component() {
    assert_eq!(exe_name_from_path("/usr/bin/firefox".to_string()), "firefox");
    assert_eq!(exe_name_from_path("firefox".to_string()), "firefox");
    assert_eq!(exe_name_from_path("/".to_string()), "/");
    assert_eq!(exe_name_from_path("".to_string()), "");
    assert_eq!(exe_name_from_path("/usr/bin/".to_string()), "bin");
    assert_eq!(exe_name_from_path("foo.txt/.//".to_string()), "foo.txt");
    assert_eq!(exe_name_from_path("foo/..".to_string()), "foo/..");
    assert_eq!(exe_name_from_path(".".to_string()), ".");
    assert_eq!(exe_name_from_path("./a".to_string()), "a");
    assert_eq!(exe_name_from_path("a//b".to_string()), "b");
}

#[test]
fn utf16_path_has_no_nul() {
    let buf: Vec<u16> = vec![67, 0, 0, 68];
    let p = exe_full_path_from_utf16(&buf, 4);
    assert_eq!(p, "C");
    assert!(!p.contains('\0'));
}

#[test]
fn idle_events_alternate_over_polls() {
    let polls: [(u64, u32); 7] = [(10, 5), (300, 5), (400, 5), (0, 5), (59, 1), (60, 1), (61, 2)];
    let mut idle = false;
    let mut events = Vec::new();
    for (secs, mins) in polls {
        let (now_idle, ev) = idle_transition(idle, secs, mins);
        assert_eq!(now_idle, secs >= mins as u64 * 60);
        idle = now_idle;
        if let Some(e) = ev {
            events.push(e);
        }
    }
    assert_eq!(events.len(), 4);
    for (i, e) in events.iter().enumerate() {
        if i % 2 == 0 {
            assert!(matches!(e, TrackerEvent::IdleStarted));
        } else {
            assert!(matches!(e, TrackerEvent::IdleEnded));
        }
    }
    assert!(!idle);
}

#[test]
fn macos_activation_sequences() {
    let app = foreground_info(7, Some("Safari".to_string()), None, String::new(), 7);
    let (active, evs) = activation_events(true, app.clone(), true);
    assert!(!active);
    assert_eq!(evs.len(), 3);
    assert!(matches!(evs[0], TrackerEvent::IdleEnded));
    assert!(matches!(evs[1], TrackerEvent::FullscreenEntered(_)));
    assert!(matches!(evs[2], TrackerEvent::WindowChanged(_)));
    let (active, evs) = activation_events(false, app, false);
    assert!(!active);
    assert_eq!(evs.len(), 1);
    let lock = foreground_info(1, Some("loginwindow".to_string()), None, String::new(), 1);
    let (active, evs) = activation_events(false, lock.clone(), true);
    assert!(active);
    assert_eq!(evs.len(), 1);
    assert!(matches!(evs[0], TrackerEvent::IdleStarted));
    let (active, evs) = activation_events(true, lock, false);
    assert!(active);
    assert!(evs.is_empty());
}
