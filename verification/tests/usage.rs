use lumen::usage::{local_midnights, periodic_actions, split_session, Aggregator, Session, SessionBuffer};
use lumen::{ProcessInfo, TrackerEvent, WindowHandle, AppIcon};

const S: i64 = 1_000_000_000;

fn info(name: &str, path: &str) -> ProcessInfo {
    ProcessInfo {
        pid: 42,
        exe_name: name.to_string(),
        exe_path: path.to_string(),
        window_title: format!("{name} window"),
        window_handle: Some(WindowHandle(7)),
    }
}

#[test]
fn window_change_closes_previous_session() {
    let mut agg = Aggregator::new();
    let out = agg.handle_event(TrackerEvent::WindowChanged(info("code", "/usr/bin/code")), 100 * S);
    assert!(out.closed.is_none());
    assert!(out.data_updated);
    assert_eq!(out.icon_request.unwrap().exe_name, "code");
    let out = agg.handle_event(TrackerEvent::WindowChanged(info("firefox", "")), 160 * S + S / 2);
    let closed = out.closed.unwrap();
    assert_eq!(closed.exe_name, "code");
    assert_eq!(closed.window_title, "code window");
    assert_eq!(closed.started_at, 100 * S);
    assert_eq!(closed.ended_at, 160 * S + S / 2);
    assert!(!closed.was_fullscreen);
    // empty executable path: no icon lookup
    assert!(out.icon_request.is_none());
    let rows = agg.usage_list(170 * S);
    assert_eq!(rows.len(), 2);
    assert_eq!(rows[0].name, "code");
    assert_eq!(rows[0].duration_secs, 60);
    assert!(!rows[0].is_active);
    assert_eq!(rows[1].name, "firefox");
    assert_eq!(rows[1].duration_secs, 9);
    assert!(rows[1].is_active);
}

#[test]
fn idle_time_is_not_counted() {
    let mut agg = Aggregator::new();
    agg.handle_event(TrackerEvent::WindowChanged(info("term", "/bin/term")), 0);
    agg.handle_event(TrackerEvent::FullscreenEntered(info("term", "/bin/term")), S);
    let out = agg.handle_event(TrackerEvent::IdleStarted, 30 * S);
    let closed = out.closed.unwrap();
    assert_eq!(closed.ended_at, 30 * S);
    assert!(closed.was_fullscreen);
    // a second IdleStarted changes nothing
    let out = agg.handle_event(TrackerEvent::IdleStarted, 31 * S);
    assert!(out.closed.is_none());
    assert!(!out.data_updated);
    // switching windows while idle opens no session
    let out = agg.handle_event(TrackerEvent::WindowChanged(info("mail", "/bin/mail")), 500 * S);
    assert!(out.closed.is_none());
    let rows = agg.usage_list(900 * S);
    assert_eq!(rows.len(), 1);
    assert_eq!(rows[0].name, "term");
    assert_eq!(rows[0].duration_secs, 30);
    // coming back resumes the last foreground window
    agg.handle_event(TrackerEvent::IdleEnded, 1000 * S);
    let rows = agg.usage_list(1005 * S);
    assert_eq!(rows.len(), 2);
    assert_eq!(rows[0].name, "term");
    assert_eq!(rows[1].name, "mail");
    assert_eq!(rows[1].duration_secs, 5);
    assert!(rows[1].is_active);
}

#[test]
fn fullscreen_flag_only_reaches_idle_close() {
    let mut agg = Aggregator::new();
    agg.handle_event(TrackerEvent::WindowChanged(info("game", "/g")), 0);
    agg.handle_event(TrackerEvent::FullscreenEntered(info("game", "/g")), S);
    let out = agg.handle_event(TrackerEvent::WindowChanged(info("chat", "/c")), 10 * S);
    assert!(!out.closed.unwrap().was_fullscreen);
    agg.handle_event(TrackerEvent::FullscreenEntered(info("chat", "/c")), 11 * S);
    agg.handle_event(TrackerEvent::FullscreenExited, 12 * S);
    let closed = agg.finish(20 * S).unwrap();
    assert_eq!(closed.exe_name, "chat");
    assert!(!closed.was_fullscreen);
    assert!(agg.finish(21 * S).is_none());
}

#[test]
fn totals_accumulate_and_clock_going_back_counts_zero() {
    let mut agg = Aggregator::new();
    agg.handle_event(TrackerEvent::WindowChanged(info("a", "/a")), 0);
    agg.handle_event(TrackerEvent::WindowChanged(info("b", "/b")), 10 * S);
    agg.handle_event(TrackerEvent::WindowChanged(info("a", "/a")), 15 * S);
    agg.handle_event(TrackerEvent::WindowChanged(info("b", "/b")), 40 * S);
    // the clock went backwards: the session counts zero seconds
    agg.handle_event(TrackerEvent::WindowChanged(info("a", "/a")), 30 * S);
    let rows = agg.usage_list(30 * S);
    assert_eq!(rows.len(), 2);
    assert_eq!(rows[0].name, "a");
    assert_eq!(rows[0].duration_secs, 35);
    assert!(rows[0].is_active);
    assert_eq!(rows[1].name, "b");
    assert_eq!(rows[1].duration_secs, 5);
}

#[test]
fn icons_are_attached_and_cleared() {
    let mut agg = Aggregator::new();
    agg.handle_event(TrackerEvent::WindowChanged(info("a", "/a")), 0);
    agg.cache_icon("a".to_string(), AppIcon { rgba: vec![1, 2, 3, 4], width: 1, height: 1 });
    let out = agg.handle_event(TrackerEvent::WindowChanged(info("a", "/a")), S);
    assert!(out.icon_request.is_none());
    let rows = agg.usage_list(2 * S);
    assert_eq!(rows[0].icon_rgba, Some(vec![1, 2, 3, 4]));
    assert_eq!((rows[0].icon_w, rows[0].icon_h), (1, 1));
    agg.clear_history();
    let rows = agg.usage_list(2 * S);
    assert_eq!(rows.len(), 1);
    assert_eq!(rows[0].duration_secs, 1);
    assert!(rows[0].icon_rgba.is_none());
    assert_eq!((rows[0].icon_w, rows[0].icon_h), (0, 0));
}

fn session(start: i64, end: i64) -> Session {
    Session { exe_name: "x".into(), window_title: "t".into(), started_at: start, ended_at: end, was_fullscreen: true }
}

#[test]
fn split_session_cuts_at_boundaries() {
    let parts = split_session(&session(10, 100), &vec![40, 70]);
    let edges: Vec<(i64, i64)> = parts.iter().map(|p| (p.started_at, p.ended_at)).collect();
    assert_eq!(edges, vec![(10, 40), (40, 70), (70, 100)]);
    assert!(parts.iter().all(|p| p.exe_name == "x" && p.window_title == "t" && p.was_fullscreen));
    let parts = split_session(&session(10, 100), &vec![]);
    assert_eq!(parts.len(), 1);
    assert!(split_session(&session(100, 100), &vec![]).is_empty());
    assert!(split_session(&session(100, 50), &vec![]).is_empty());
}

#[test]
fn session_buffer_queues_pieces() {
    let mut buf = SessionBuffer::new();
    assert!(buf.is_empty());
    buf.queue_split(session(0, 10), &vec![5]);
    buf.queue_raw(session(20, 30));
    assert_eq!(buf.sessions().len(), 3);
    assert_eq!(buf.sessions()[1].started_at, 5);
    buf.clear();
    assert!(buf.is_empty());
}

#[test]
fn local_midnights_are_increasing_and_inside() {
    let day: i64 = 86_400 * 1_000_000_000;
    let start: i64 = 1_700_000_000 * 1_000_000_000;
    let cuts = local_midnights(start, start + 3 * day);
    assert!(cuts.len() >= 2 && cuts.len() <= 4, "{:?}", cuts);
    for w in cuts.windows(2) {
        assert!(w[0] < w[1]);
        assert!(w[1] - w[0] >= day - 3_600 * 1_000_000_000);
    }
    for c in &cuts {
        assert!(*c > start && *c < start + 3 * day);
    }
    assert!(local_midnights(start, start).is_empty());
    assert!(local_midnights(start, start - 1).is_empty());
}

#[test]
fn queue_cuts_at_local_midnights() {
    let day: i64 = 86_400 * 1_000_000_000;
    let start: i64 = 1_700_000_000 * 1_000_000_000;
    let mut buf = SessionBuffer::new();
    buf.queue(session(start, start + 2 * day));
    let pieces = buf.sessions();
    assert!(pieces.len() >= 2 && pieces.len() <= 3);
    assert_eq!(pieces[0].started_at, start);
    assert_eq!(pieces[pieces.len() - 1].ended_at, start + 2 * day);
    for w in pieces.windows(2) {
        assert_eq!(w[0].ended_at, w[1].started_at);
    }
    let mut short = SessionBuffer::new();
    short.queue(session(start, start + 10));
    assert_eq!(short.sessions().len(), 1);
}

#[test]
fn periodic_work_follows_the_intervals() {
    let a = periodic_actions(29_999, 999);
    assert!(!a.flush && !a.refresh);
    let b = periodic_actions(30_000, 1_000);
    assert!(b.flush && b.refresh);
    let c = periodic_actions(45_000, 10);
    assert!(c.flush && !c.refresh);
}
