//! Usage accounting: turns tracker events into closed sessions and
//! per-application totals, and builds the list that the UI shows.
//!
//! Times are nanoseconds since the Unix epoch (UTC).
use vstd::prelude::*;
use crate::entries::{entries_map, find_entry, lemma_entries_map_dom, lemma_entries_map_index, lemma_entries_map_push, lemma_entries_map_update, names_unique};
use crate::types::{AppIcon, ProcessInfo, TrackerEvent};
use crate::tracker::spec_x11_foreground_events;
use crate::localtime::{midnight_step_ok, next_local_midnight, step_midnight, MidnightStep};

verus! {

pub const NANOS_PER_SEC: i64 = 1_000_000_000;

/// Whole seconds from `start` to `end`, or 0 when `end` is not after `start`
/// (the duration truncated towards zero, then clamped at 0).
pub open spec fn elapsed_secs(start: i64, end: i64) -> nat {
    if end > start {
        ((end - start) / (NANOS_PER_SEC as int)) as nat
    } else {
        0
    }
}

/// `a + b`, capped at `u64::MAX`.
pub open spec fn sat_add(a: nat, b: nat) -> u64 {
    if a + b > u64::MAX { u64::MAX } else { (a + b) as u64 }
}

/// The value stored for `k`, or 0.
pub open spec fn total_or_zero(m: Map<Seq<char>, u64>, k: Seq<char>) -> nat {
    if m.contains_key(k) { m[k] as nat } else { 0 }
}

/// Adds `dur` seconds to the total of `k` (creating it at 0 first).
pub open spec fn add_to_total(m: Map<Seq<char>, u64>, k: Seq<char>, dur: nat) -> Map<Seq<char>, u64> {
    m.insert(k, sat_add(total_or_zero(m, k), dur))
}

pub fn elapsed(start: i64, end: i64) -> (r: u64)
    ensures
        r == elapsed_secs(start, end),
{
    if end > start {
        let d: i128 = end as i128 - start as i128;
        (d / (NANOS_PER_SEC as i128)) as u64
    } else {
        0
    }
}

/// A finished stretch of time spent in one application.
#[derive(Debug)]
pub struct Session {
    pub exe_name: String,
    pub window_title: String,
    pub started_at: i64,
    pub ended_at: i64,
    pub was_fullscreen: bool,
}

/// Whether `b` may cut `s`: strictly increasing points strictly inside
/// the session.
pub open spec fn cuts_ok(s: Session, b: Seq<i64>) -> bool {
    &&& forall|i: int, j: int| 0 <= i < j < b.len() ==> #[trigger] b[i] < #[trigger] b[j]
    &&& forall|i: int| 0 <= i < b.len() ==> s.started_at < #[trigger] b[i] < s.ended_at
}

/// The `i`-th edge of the pieces of `s` cut at `b`: the start, the cuts,
/// then the end.
pub open spec fn cut_edge(s: Session, b: Seq<i64>, i: int) -> i64 {
    if i == 0 { s.started_at } else if i <= b.len() { b[i - 1] } else { s.ended_at }
}

/// `fragments` are `s` cut at `b`: the same application, title and
/// fullscreen flag, one piece between each two consecutive edges.
pub open spec fn split_ok(s: Session, b: Seq<i64>, fragments: Seq<Session>) -> bool {
    if s.started_at >= s.ended_at {
        fragments.len() == 0
    } else {
        &&& fragments.len() == b.len() + 1
        &&& forall|i: int| 0 <= i < fragments.len() ==> {
            &&& (#[trigger] fragments[i]).exe_name == s.exe_name
            &&& fragments[i].window_title == s.window_title
            &&& fragments[i].was_fullscreen == s.was_fullscreen
            &&& fragments[i].started_at == cut_edge(s, b, i)
            &&& fragments[i].ended_at == cut_edge(s, b, i + 1)
        }
    }
}

/// Cuts `session` at `boundaries` (the local midnights that fall inside
/// it, in increasing order), so that every piece lies within one local
/// day. A session that does not end after it starts yields no piece.
pub fn split_session(session: &Session, boundaries: &Vec<i64>) -> (r: Vec<Session>)
    requires
        session.started_at < session.ended_at ==> cuts_ok(*session, boundaries@),
    ensures
        split_ok(*session, boundaries@, r@),
{
    let mut result: Vec<Session> = Vec::new();
    if session.started_at >= session.ended_at {
        return result;
    }
    let mut cur = session.started_at;
    let mut i: usize = 0;
    while i < boundaries.len()
        invariant
            session.started_at < session.ended_at,
            cuts_ok(*session, boundaries@),
            i <= boundaries@.len(),
            result@.len() == i,
            cur == cut_edge(*session, boundaries@, i as int),
            forall|k: int| 0 <= k < i ==> {
                &&& (#[trigger] result@[k]).exe_name == session.exe_name
                &&& result@[k].window_title == session.window_title
                &&& result@[k].was_fullscreen == session.was_fullscreen
                &&& result@[k].started_at == cut_edge(*session, boundaries@, k)
                &&& result@[k].ended_at == cut_edge(*session, boundaries@, k + 1)
            },
        decreases boundaries@.len() - i,
    {
        let next = boundaries[i];
        result.push(Session {
            exe_name: session.exe_name.clone(),
            window_title: session.window_title.clone(),
            started_at: cur,
            ended_at: next,
            was_fullscreen: session.was_fullscreen,
        });
        cur = next;
        i = i + 1;
    }
    result.push(Session {
        exe_name: session.exe_name.clone(),
        window_title: session.window_title.clone(),
        started_at: cur,
        ended_at: session.ended_at,
        was_fullscreen: session.was_fullscreen,
    });
    result
}

/// Whether the walk keeps the midnight `next` that the time zone gave
/// after `cur`: only when it lies strictly between `cur` and `end`.
pub open spec fn spec_next_cut(cur: i64, end: i64, next: Option<i64>) -> Option<i64> {
    match next {
        Some(n) => if cur < n && n < end { Some(n) } else { None },
        None => None,
    }
}

/// Decides one step of the midnight walk: the cut to keep, or none to
/// stop.
pub fn next_cut(cur: i64, end: i64, next: Option<i64>) -> (r: Option<i64>)
    ensures
        r == spec_next_cut(cur, end, next),
{
    match next {
        Some(n) => if cur < n && n < end { Some(n) } else { None },
        None => None,
    }
}

/// The instant handed to the time zone for the `i`-th step of the walk:
/// `start`, then each kept midnight.
pub open spec fn walk_point(start: i64, cuts: Seq<i64>, i: int) -> i64 {
    if i == 0 { start } else { cuts[i - 1] }
}

/// `cuts` is what the walk from `start` keeps, `steps[i]` being the
/// search for the next local midnight after `walk_point(start, cuts, i)`
/// (the local date read there and the zone's answer for 00:00:00 of the
/// day after it): every step's midnight but the last is kept, and the last
/// one stops the walk.
pub open spec fn midnight_walk(start: i64, end: i64, steps: Seq<MidnightStep>, cuts: Seq<i64>) -> bool {
    &&& steps.len() == cuts.len() + 1
    &&& forall|i: int| 0 <= i < steps.len() ==> midnight_step_ok(walk_point(start, cuts, i), #[trigger] steps[i])
    &&& forall|i: int| 0 <= i < cuts.len() ==> spec_next_cut(walk_point(start, cuts, i), end, step_midnight(#[trigger] steps[i])) == Some(cuts[i])
    &&& spec_next_cut(walk_point(start, cuts, cuts.len() as int), end, step_midnight(steps[cuts.len() as int])) is None
}

/// The local midnights strictly between `start` and `end`, in increasing
/// order: starting from `start`, each step reads the local date of the
/// last point, asks the time zone for 00:00:00 of the next day, and keeps
/// that midnight while it lies after the last point and before `end` (see
/// `next_cut`).
pub fn local_midnights(start: i64, end: i64) -> (r: Vec<i64>)
    ensures
        start >= end ==> r@.len() == 0,
        start < end ==> exists|steps: Seq<MidnightStep>| midnight_walk(start, end, steps, r@),
        forall|i: int, j: int| 0 <= i < j < r@.len() ==> #[trigger] r@[i] < #[trigger] r@[j],
        forall|i: int| 0 <= i < r@.len() ==> start < #[trigger] r@[i] < end,
{
    let mut out: Vec<i64> = Vec::new();
    if start >= end {
        return out;
    }
    let mut cur = start;
    let ghost mut steps: Seq<MidnightStep> = Seq::empty();
    loop
        invariant_except_break
            steps.len() == out@.len(),
        invariant
            start < end,
            start <= cur < end,
            cur == walk_point(start, out@, out@.len() as int),
            forall|i: int| 0 <= i < out@.len() ==> midnight_step_ok(walk_point(start, out@, i), #[trigger] steps[i]),
            forall|i: int| 0 <= i < out@.len() ==> spec_next_cut(walk_point(start, out@, i), end, step_midnight(#[trigger] steps[i])) == Some(out@[i]),
            forall|i: int, j: int| 0 <= i < j < out@.len() ==> #[trigger] out@[i] < #[trigger] out@[j],
            forall|i: int| 0 <= i < out@.len() ==> start < #[trigger] out@[i] <= cur,
        ensures
            midnight_walk(start, end, steps, out@),
            forall|i: int, j: int| 0 <= i < j < out@.len() ==> #[trigger] out@[i] < #[trigger] out@[j],
            forall|i: int| 0 <= i < out@.len() ==> start < #[trigger] out@[i] < end,
        decreases end - cur,
    {
        let (answer, Ghost(step)) = next_local_midnight(cur);
        let cut = next_cut(cur, end, answer);
        match cut {
            Some(next) => {
                let ghost old_out = out@;
                let ghost old_steps = steps;
                out.push(next);
                proof {
                    steps = steps.push(step);
                    assert forall|i: int| 0 <= i < out@.len() implies
                        midnight_step_ok(walk_point(start, out@, i), #[trigger] steps[i])
                        && spec_next_cut(walk_point(start, out@, i), end, step_midnight(steps[i])) == Some(out@[i]) by {
                        if i < old_out.len() {
                            assert(steps[i] == old_steps[i]);
                            assert(out@[i] == old_out[i]);
                            assert(walk_point(start, out@, i) == walk_point(start, old_out, i));
                        } else {
                            assert(walk_point(start, out@, i) == walk_point(start, old_out, i));
                        }
                    }
                }
                cur = next;
            },
            None => {
                proof {
                    let ghost old_steps = steps;
                    steps = steps.push(step);
                    assert forall|i: int| 0 <= i < steps.len() implies
                        midnight_step_ok(walk_point(start, out@, i), #[trigger] steps[i]) by {
                        if i < old_steps.len() {
                            assert(steps[i] == old_steps[i]);
                        }
                    }
                    assert forall|i: int| 0 <= i < out@.len() implies
                        spec_next_cut(walk_point(start, out@, i), end, step_midnight(#[trigger] steps[i])) == Some(out@[i]) by {
                        assert(steps[i] == old_steps[i]);
                    }
                }
                break;
            },
        }
    }
    out
}

/// Total length of the pieces, in nanoseconds.
pub open spec fn fragments_len(f: Seq<Session>) -> int
    decreases f.len(),
{
    if f.len() == 0 { 0 } else { fragments_len(f.drop_last()) + (f.last().ended_at - f.last().started_at) }
}

proof fn lemma_fragments_prefix_len(s: Session, b: Seq<i64>, f: Seq<Session>, n: int)
    requires
        split_ok(s, b, f),
        s.started_at < s.ended_at,
        0 <= n <= f.len(),
    ensures
        fragments_len(f.subrange(0, n)) == cut_edge(s, b, n) - s.started_at,
    decreases n,
{
    if n > 0 {
        lemma_fragments_prefix_len(s, b, f, n - 1);
        assert(f.subrange(0, n).drop_last() =~= f.subrange(0, n - 1));
        assert(f.subrange(0, n).last() == f[n - 1]);
    }
}

/// Law: splitting a session loses no time and adds none: the pieces are
/// contiguous and their lengths add up to the session's length.
pub proof fn lemma_split_preserves_length(s: Session, b: Seq<i64>, f: Seq<Session>)
    requires
        s.started_at < s.ended_at,
        cuts_ok(s, b),
        split_ok(s, b, f),
    ensures
        fragments_len(f) == s.ended_at - s.started_at,
        forall|i: int| 0 <= i < f.len() - 1 ==> #[trigger] f[i].ended_at == f[i + 1].started_at,
        forall|i: int| 0 <= i < f.len() ==> #[trigger] f[i].started_at < f[i].ended_at,
{
    lemma_fragments_prefix_len(s, b, f, f.len() as int);
    assert(f.subrange(0, f.len() as int) =~= f);
    assert forall|i: int| 0 <= i < f.len() implies #[trigger] f[i].started_at < f[i].ended_at by {
        if 0 < i && i < b.len() {
            assert(b[i - 1] < b[i]);
        }
    }
}

/// Milliseconds between two writes of the buffered sessions to disk.
pub const FLUSH_INTERVAL_MS: u64 = 30_000;
/// Milliseconds between two refreshes of the published usage list.
pub const UI_UPDATE_INTERVAL_MS: u64 = 1_000;

/// The periodic work of one turn of the accounting loop.
#[derive(Debug, Clone, Copy, PartialEq, Eq)]
pub struct PeriodicActions {
    /// Write the buffered sessions (and restart the write timer).
    pub flush: bool,
    /// Publish a fresh usage list (and restart the refresh timer).
    pub refresh: bool,
}

/// Decides the periodic work from the whole milliseconds since the last
/// write and since the last refresh: a write every 30 s, a refresh every
/// second.
pub fn periodic_actions(since_flush_ms: u64, since_refresh_ms: u64) -> (r: PeriodicActions)
    ensures
        r.flush == (since_flush_ms >= FLUSH_INTERVAL_MS),
        r.refresh == (since_refresh_ms >= UI_UPDATE_INTERVAL_MS),
{
    PeriodicActions { flush: since_flush_ms >= FLUSH_INTERVAL_MS, refresh: since_refresh_ms >= UI_UPDATE_INTERVAL_MS }
}

/// The session in progress: the foreground process, since when, and
/// whether it is in fullscreen.
#[derive(Debug)]
pub struct OpenSession {
    pub info: ProcessInfo,
    pub started_at: i64,
    pub was_fullscreen: bool,
}

/// What the application has to do after one event.
#[derive(Debug)]
pub struct StepOutput {
    /// A session that ended and goes to storage.
    pub closed: Option<Session>,
    /// The process whose icon should be looked up and handed to
    /// `Aggregator::cache_icon` (its icon is not cached yet).
    pub icon_request: Option<ProcessInfo>,
    /// Whether the usage list changed and the UI should be told.
    pub data_updated: bool,
}

/// The abstract state of an `Aggregator`.
pub struct AggregatorModel {
    pub current: Option<OpenSession>,
    pub is_idle: bool,
    pub last_foreground: Option<ProcessInfo>,
    /// Seconds per executable name, over the sessions closed so far.
    pub totals: Map<Seq<char>, u64>,
    /// Cached icons per executable name.
    pub icons: Map<Seq<char>, AppIcon>,
}

/// The session that `prev` becomes when it ends at `now`.
pub open spec fn ended_session(prev: OpenSession, now: i64, was_fullscreen: bool) -> Session {
    Session {
        exe_name: prev.info.exe_name,
        window_title: prev.info.window_title,
        started_at: prev.started_at,
        ended_at: now,
        was_fullscreen,
    }
}

/// Whether the icon of `info` has to be looked up.
pub open spec fn wants_icon(m: AggregatorModel, info: ProcessInfo) -> bool {
    info.exe_path@.len() > 0 && !m.icons.contains_key(info.exe_name@)
}

/// One step of the accounting: the state after `event` at time `now`, and
/// what the application must do.
pub open spec fn spec_step(m: AggregatorModel, event: TrackerEvent, now: i64) -> (AggregatorModel, StepOutput) {
    match event {
        TrackerEvent::WindowChanged(info) => {
            let icon_request = if wants_icon(m, info) { Some(info) } else { None };
            if !m.is_idle {
                let (totals, closed) = match m.current {
                    Some(prev) => (
                        add_to_total(m.totals, prev.info.exe_name@, elapsed_secs(prev.started_at, now)),
                        Some(ended_session(prev, now, false)),
                    ),
                    None => (m.totals, None),
                };
                (
                    AggregatorModel {
                        current: Some(OpenSession { info, started_at: now, was_fullscreen: false }),
                        last_foreground: Some(info),
                        totals,
                        ..m
                    },
                    StepOutput { closed, icon_request, data_updated: true },
                )
            } else {
                (
                    AggregatorModel { last_foreground: Some(info), ..m },
                    StepOutput { closed: None, icon_request, data_updated: true },
                )
            }
        },
        TrackerEvent::FullscreenEntered(_) => {
            let current = match m.current {
                Some(c) => Some(OpenSession { was_fullscreen: true, ..c }),
                None => None,
            };
            (AggregatorModel { current, ..m }, StepOutput { closed: None, icon_request: None, data_updated: true })
        },
        TrackerEvent::FullscreenExited => {
            let current = match m.current {
                Some(c) => Some(OpenSession { was_fullscreen: false, ..c }),
                None => None,
            };
            (AggregatorModel { current, ..m }, StepOutput { closed: None, icon_request: None, data_updated: true })
        },
        TrackerEvent::IdleStarted => {
            if !m.is_idle {
                let (totals, closed) = match m.current {
                    Some(prev) => (
                        add_to_total(m.totals, prev.info.exe_name@, elapsed_secs(prev.started_at, now)),
                        Some(ended_session(prev, now, prev.was_fullscreen)),
                    ),
                    None => (m.totals, None),
                };
                (
                    AggregatorModel { current: None, is_idle: true, totals, ..m },
                    StepOutput { closed, icon_request: None, data_updated: true },
                )
            } else {
                (m, StepOutput { closed: None, icon_request: None, data_updated: false })
            }
        },
        TrackerEvent::IdleEnded => {
            if m.is_idle {
                let current = match m.last_foreground {
                    Some(info) => Some(OpenSession { info, started_at: now, was_fullscreen: false }),
                    None => m.current,
                };
                (
                    AggregatorModel { current, is_idle: false, ..m },
                    StepOutput { closed: None, icon_request: None, data_updated: true },
                )
            } else {
                (m, StepOutput { closed: None, icon_request: None, data_updated: false })
            }
        },
    }
}

/// One row of the usage list.
#[derive(Debug, Clone)]
pub struct AppUsage {
    pub name: String,
    pub duration_secs: u64,
    pub is_active: bool,
    pub icon_rgba: Option<Vec<u8>>,
    pub icon_w: u32,
    pub icon_h: u32,
}

/// Whether `k` is the name of the session in progress.
pub open spec fn is_current_name(m: AggregatorModel, k: Seq<char>) -> bool {
    m.current matches Some(c) && c.info.exe_name@ == k
}

/// The seconds shown for `k` at time `now`: its total, plus the time of
/// the session in progress when `k` is that session's application.
pub open spec fn shown_secs(m: AggregatorModel, now: i64, k: Seq<char>) -> u64 {
    match m.current {
        Some(c) => if c.info.exe_name@ == k {
            sat_add(total_or_zero(m.totals, k), elapsed_secs(c.started_at, now))
        } else {
            m.totals[k]
        },
        None => m.totals[k],
    }
}

/// A row that is right for state `m` at time `now`.
pub open spec fn usage_row_ok(m: AggregatorModel, now: i64, a: AppUsage) -> bool {
    let k = a.name@;
    &&& m.totals.contains_key(k) || is_current_name(m, k)
    &&& a.duration_secs == shown_secs(m, now, k)
    &&& a.is_active == is_current_name(m, k)
    &&& if m.icons.contains_key(k) {
        &&& a.icon_rgba matches Some(v) && v@ == m.icons[k].rgba@
        &&& a.icon_w == m.icons[k].width
        &&& a.icon_h == m.icons[k].height
    } else {
        &&& a.icon_rgba is None
        &&& a.icon_w == 0
        &&& a.icon_h == 0
    }
}

/// The usage list for state `m` at time `now`: one row per application
/// that has a total or is in the foreground, longest first.
pub open spec fn usage_list_ok(m: AggregatorModel, now: i64, rows: Seq<AppUsage>) -> bool {
    &&& forall|i: int| 0 <= i < rows.len() ==> usage_row_ok(m, now, #[trigger] rows[i])
    &&& forall|i: int, j: int| 0 <= i < j < rows.len() ==> #[trigger] rows[i].name@ != #[trigger] rows[j].name@
    &&& forall|k: Seq<char>| #[trigger] m.totals.contains_key(k) ==> exists|i: int| 0 <= i < rows.len() && #[trigger] rows[i].name@ == k
    &&& forall|c: OpenSession| m.current == Some(c) ==> exists|i: int| 0 <= i < rows.len() && #[trigger] rows[i].name@ == c.info.exe_name@
    &&& forall|i: int, j: int| 0 <= i < j < rows.len() ==> #[trigger] rows[i].duration_secs >= #[trigger] rows[j].duration_secs
}

/// Copies a byte buffer.
pub fn copy_bytes(v: &Vec<u8>) -> (r: Vec<u8>)
    ensures
        r@ == v@,
{
    let mut r: Vec<u8> = Vec::new();
    let mut i: usize = 0;
    while i < v.len()
        invariant
            i <= v@.len(),
            r@ == v@.subrange(0, i as int),
        decreases v@.len() - i,
    {
        r.push(v[i]);
        i = i + 1;
        assert(r@ =~= v@.subrange(0, i as int));
    }
    assert(r@ =~= v@);
    r
}

/// Inserts `a` into `rows` (sorted by decreasing duration) after every row
/// that is at least as long.
fn insert_sorted(rows: &mut Vec<AppUsage>, a: AppUsage)
    requires
        forall|i: int, j: int| 0 <= i < j < old(rows)@.len() ==> #[trigger] old(rows)@[i].duration_secs >= #[trigger] old(rows)@[j].duration_secs,
    ensures
        forall|i: int, j: int| 0 <= i < j < final(rows)@.len() ==> #[trigger] final(rows)@[i].duration_secs >= #[trigger] final(rows)@[j].duration_secs,
        exists|p: int| 0 <= p <= old(rows)@.len() && final(rows)@ == old(rows)@.insert(p, a),
{
    let mut p: usize = 0;
    while p < rows.len() && rows[p].duration_secs >= a.duration_secs
        invariant
            p <= rows@.len(),
            forall|i: int| 0 <= i < p ==> #[trigger] rows@[i].duration_secs >= a.duration_secs,
        decreases rows@.len() - p,
    {
        p = p + 1;
    }
    let ghost old_rows = rows@;
    rows.insert(p, a);
    assert forall|i: int, j: int| 0 <= i < j < rows@.len() implies #[trigger] rows@[i].duration_secs >= #[trigger] rows@[j].duration_secs by {
        if j < p {
        } else if j == p {
        } else if i < p {
            assert(rows@[j] == old_rows[j - 1]);
            if p < old_rows.len() {
                assert(old_rows[p as int].duration_secs < a.duration_secs);
            }
        } else if i == p {
            assert(rows@[j] == old_rows[j - 1]);
            assert(old_rows[p as int].duration_secs < a.duration_secs);
        } else {
            assert(rows@[j] == old_rows[j - 1]);
            assert(rows@[i] == old_rows[i - 1]);
        }
    }
}

/// Turns the stream of tracker events into sessions and totals.
pub struct Aggregator {
    current: Option<OpenSession>,
    is_idle: bool,
    last_foreground: Option<ProcessInfo>,
    totals: Vec<(String, u64)>,
    icons: Vec<(String, AppIcon)>,
}

impl View for Aggregator {
    type V = AggregatorModel;

    closed spec fn view(&self) -> AggregatorModel {
        AggregatorModel {
            current: self.current,
            is_idle: self.is_idle,
            last_foreground: self.last_foreground,
            totals: entries_map(self.totals@),
            icons: entries_map(self.icons@),
        }
    }
}

/// The invariant of the abstract state: no session is open while idle.
pub open spec fn model_wf(m: AggregatorModel) -> bool {
    m.is_idle ==> m.current is None
}

impl Aggregator {
    /// Well-formedness: the model invariant, and distinct names in the
    /// association lists.
    pub closed spec fn wf(&self) -> bool {
        &&& model_wf(self@)
        &&& names_unique(self.totals@)
        &&& names_unique(self.icons@)
    }

    /// A well-formed aggregator's state meets the model invariant.
    pub proof fn lemma_wf_model(&self)
        requires
            self.wf(),
        ensures
            model_wf(self@),
    {
    }

    /// An aggregator with nothing recorded, not idle.
    pub fn new() -> (r: Self)
        ensures
            r.wf(),
            r@.current is None,
            !r@.is_idle,
            r@.last_foreground is None,
            r@.totals == Map::<Seq<char>, u64>::empty(),
            r@.icons == Map::<Seq<char>, AppIcon>::empty(),
    {
        let r = Aggregator { current: None, is_idle: false, last_foreground: None, totals: Vec::new(), icons: Vec::new() };
        proof {
            assert(r.totals@ =~= Seq::<(String, u64)>::empty());
            assert(r.icons@ =~= Seq::<(String, AppIcon)>::empty());
        }
        r
    }

    /// Adds `dur` seconds to the total of `name`.
    fn add_total(&mut self, name: &String, dur: u64)
        requires
            names_unique(old(self).totals@),
        ensures
            names_unique(final(self).totals@),
            entries_map(final(self).totals@) == add_to_total(entries_map(old(self).totals@), name@, dur as nat),
            final(self).current == old(self).current,
            final(self).is_idle == old(self).is_idle,
            final(self).last_foreground == old(self).last_foreground,
            final(self).icons == old(self).icons,
    {
        let ghost m = entries_map(self.totals@);
        match find_entry(&self.totals, name) {
            Some(i) => {
                proof {
                    lemma_entries_map_index(self.totals@, i as int);
                }
                let old_total = self.totals[i].1;
                let key = self.totals[i].0.clone();
                let new_total = old_total.saturating_add(dur);
                proof {
                    lemma_entries_map_update(self.totals@, i as int, new_total);
                }
                self.totals.set(i, (key, new_total));
                assert(entries_map(self.totals@) =~= add_to_total(m, name@, dur as nat));
            },
            None => {
                proof {
                    lemma_entries_map_dom(self.totals@, name@);
                }
                let key = name.clone();
                proof {
                    lemma_entries_map_push(self.totals@, (key, dur));
                }
                self.totals.push((key, dur));
                assert(entries_map(self.totals@) =~= add_to_total(m, name@, dur as nat));
            },
        }
    }

    /// Whether an icon is cached for `name`.
    fn has_icon(&self, name: &String) -> (r: bool)
        ensures
            r == entries_map(self.icons@).contains_key(name@),
    {
        proof {
            lemma_entries_map_dom(self.icons@, name@);
        }
        match find_entry(&self.icons, name) {
            Some(_) => true,
            None => false,
        }
    }

    /// Handles one tracker event at time `now`.
    pub fn handle_event(&mut self, event: TrackerEvent, now: i64) -> (out: StepOutput)
        requires
            old(self).wf(),
        ensures
            final(self).wf(),
            model_wf(final(self)@),
            (final(self)@, out) == spec_step(old(self)@, event, now),
    {
        let ghost m = self@;
        match event {
            TrackerEvent::WindowChanged(info) => {
                let icon_request = if !info.exe_path.as_str().is_empty() && !self.has_icon(&info.exe_name) {
                    Some(info.clone())
                } else {
                    None
                };
                self.last_foreground = Some(info.clone());
                if !self.is_idle {
                    let closed = match self.current.take() {
                        Some(prev) => {
                            let dur = elapsed(prev.started_at, now);
                            self.add_total(&prev.info.exe_name, dur);
                            Some(Session {
                                exe_name: prev.info.exe_name,
                                window_title: prev.info.window_title,
                                started_at: prev.started_at,
                                ended_at: now,
                                was_fullscreen: false,
                            })
                        },
                        None => None,
                    };
                    self.current = Some(OpenSession { info, started_at: now, was_fullscreen: false });
                    StepOutput { closed, icon_request, data_updated: true }
                } else {
                    StepOutput { closed: None, icon_request, data_updated: true }
                }
            },
            TrackerEvent::FullscreenEntered(_) => {
                match self.current.take() {
                    Some(c) => {
                        self.current = Some(OpenSession { was_fullscreen: true, ..c });
                    },
                    None => {},
                }
                StepOutput { closed: None, icon_request: None, data_updated: true }
            },
            TrackerEvent::FullscreenExited => {
                match self.current.take() {
                    Some(c) => {
                        self.current = Some(OpenSession { was_fullscreen: false, ..c });
                    },
                    None => {},
                }
                StepOutput { closed: None, icon_request: None, data_updated: true }
            },
            TrackerEvent::IdleStarted => {
                if !self.is_idle {
                    self.is_idle = true;
                    let closed = match self.current.take() {
                        Some(prev) => {
                            let dur = elapsed(prev.started_at, now);
                            self.add_total(&prev.info.exe_name, dur);
                            Some(Session {
                                exe_name: prev.info.exe_name,
                                window_title: prev.info.window_title,
                                started_at: prev.started_at,
                                ended_at: now,
                                was_fullscreen: prev.was_fullscreen,
                            })
                        },
                        None => None,
                    };
                    StepOutput { closed, icon_request: None, data_updated: true }
                } else {
                    StepOutput { closed: None, icon_request: None, data_updated: false }
                }
            },
            TrackerEvent::IdleEnded => {
                if self.is_idle {
                    self.is_idle = false;
                    match &self.last_foreground {
                        Some(info) => {
                            let info = info.clone();
                            self.current = Some(OpenSession { info, started_at: now, was_fullscreen: false });
                        },
                        None => {},
                    }
                    StepOutput { closed: None, icon_request: None, data_updated: true }
                } else {
                    StepOutput { closed: None, icon_request: None, data_updated: false }
                }
            },
        }
    }

    /// Remembers `icon` as the icon of the application called `name`.
    pub fn cache_icon(&mut self, name: String, icon: AppIcon)
        requires
            old(self).wf(),
        ensures
            final(self).wf(),
            final(self)@ == (AggregatorModel { icons: old(self)@.icons.insert(name@, icon), ..old(self)@ }),
    {
        match find_entry(&self.icons, &name) {
            Some(i) => {
                proof {
                    lemma_entries_map_update(self.icons@, i as int, icon);
                }
                let key = self.icons[i].0.clone();
                self.icons.set(i, (key, icon));
            },
            None => {
                proof {
                    lemma_entries_map_dom(self.icons@, name@);
                    lemma_entries_map_push(self.icons@, (name, icon));
                }
                self.icons.push((name, icon));
            },
        }
    }

    /// Forgets all totals and cached icons (the session in progress stays).
    pub fn clear_history(&mut self)
        requires
            old(self).wf(),
        ensures
            final(self).wf(),
            final(self)@ == (AggregatorModel {
                totals: Map::<Seq<char>, u64>::empty(),
                icons: Map::<Seq<char>, AppIcon>::empty(),
                ..old(self)@
            }),
    {
        self.totals = Vec::new();
        self.icons = Vec::new();
        assert(self.totals@ =~= Seq::<(String, u64)>::empty());
        assert(self.icons@ =~= Seq::<(String, AppIcon)>::empty());
    }

    /// Ends the session in progress at `now`, on shutdown. The totals are
    /// left as they are.
    pub fn finish(&mut self, now: i64) -> (r: Option<Session>)
        requires
            old(self).wf(),
        ensures
            final(self).wf(),
            final(self)@ == (AggregatorModel { current: None, ..old(self)@ }),
            r == (match old(self)@.current {
                Some(prev) => Some(ended_session(prev, now, prev.was_fullscreen)),
                None => None,
            }),
    {
        match self.current.take() {
            Some(prev) => Some(Session {
                exe_name: prev.info.exe_name,
                window_title: prev.info.window_title,
                started_at: prev.started_at,
                ended_at: now,
                was_fullscreen: prev.was_fullscreen,
            }),
            None => None,
        }
    }

    /// The row for `name` with `secs` seconds.
    fn make_row(&self, name: &String, secs: u64, is_active: bool) -> (r: AppUsage)
        requires
            names_unique(self.icons@),
        ensures
            r.name == *name,
            r.duration_secs == secs,
            r.is_active == is_active,
            if entries_map(self.icons@).contains_key(name@) {
                &&& r.icon_rgba matches Some(v) && v@ == entries_map(self.icons@)[name@].rgba@
                &&& r.icon_w == entries_map(self.icons@)[name@].width
                &&& r.icon_h == entries_map(self.icons@)[name@].height
            } else {
                &&& r.icon_rgba is None
                &&& r.icon_w == 0
                &&& r.icon_h == 0
            },
    {
        proof {
            lemma_entries_map_dom(self.icons@, name@);
        }
        match find_entry(&self.icons, name) {
            Some(i) => {
                proof {
                    lemma_entries_map_index(self.icons@, i as int);
                }
                let icon = &self.icons[i].1;
                AppUsage {
                    name: name.clone(),
                    duration_secs: secs,
                    is_active,
                    icon_rgba: Some(copy_bytes(&icon.rgba)),
                    icon_w: icon.width,
                    icon_h: icon.height,
                }
            },
            None => AppUsage { name: name.clone(), duration_secs: secs, is_active, icon_rgba: None, icon_w: 0, icon_h: 0 },
        }
    }

    /// The row for the `i`-th total at time `now`.
    fn row_for_total(&self, i: usize, now: i64) -> (r: AppUsage)
        requires
            self.wf(),
            i < self.totals@.len(),
        ensures
            usage_row_ok(self@, now, r),
            r.name@ == self.totals@[i as int].0@,
    {
        let name = &self.totals[i].0;
        let secs = self.totals[i].1;
        proof {
            lemma_entries_map_index(self.totals@, i as int);
        }
        let (shown, active) = match &self.current {
            Some(c) => if c.info.exe_name == *name {
                (secs.saturating_add(elapsed(c.started_at, now)), true)
            } else {
                (secs, false)
            },
            None => (secs, false),
        };
        self.make_row(name, shown, active)
    }

    /// The usage list at time `now`: every application with a total, and
    /// the one in the foreground, with its running session added, sorted by
    /// decreasing duration.
    pub fn usage_list(&self, now: i64) -> (rows: Vec<AppUsage>)
        requires
            self.wf(),
        ensures
            usage_list_ok(self@, now, rows@),
    {
        let ghost m = self@;
        let mut rows: Vec<AppUsage> = Vec::new();
        let mut i: usize = 0;
        proof {
            assert(row_names(rows@) =~= prefix_names(self.totals@, 0));
        }
        while i < self.totals.len()
            invariant
                self.wf(),
                m == self@,
                i <= self.totals@.len(),
                rows_ok(m, now, rows@),
                row_names(rows@) == prefix_names(self.totals@, i as int),
            decreases self.totals@.len() - i,
        {
            let row = self.row_for_total(i, now);
            proof {
                lemma_prefix_names_step(self.totals@, i as int);
            }
            let ghost old_rows = rows@;
            insert_sorted(&mut rows, row);
            proof {
                lemma_insert_row(m, now, old_rows, rows@, row);
            }
            i = i + 1;
        }
        proof {
            lemma_prefix_names_all(self.totals@);
        }
        match &self.current {
            Some(c) => {
                proof {
                    lemma_entries_map_dom(self.totals@, c.info.exe_name@);
                }
                if !self.has_total(&c.info.exe_name) {
                    let shown = 0u64.saturating_add(elapsed(c.started_at, now));
                    let row = self.make_row(&c.info.exe_name, shown, true);
                    let ghost old_rows = rows@;
                    insert_sorted(&mut rows, row);
                    proof {
                        lemma_insert_row(m, now, old_rows, rows@, row);
                    }
                }
            },
            None => {},
        }
        proof {
            lemma_rows_ok_list(m, now, rows@);
        }
        rows
    }

    /// Whether `name` has a total.
    fn has_total(&self, name: &String) -> (r: bool)
        ensures
            r == entries_map(self.totals@).contains_key(name@),
    {
        proof {
            lemma_entries_map_dom(self.totals@, name@);
        }
        match find_entry(&self.totals, name) {
            Some(_) => true,
            None => false,
        }
    }
}

/// The names that the rows carry.
pub open spec fn row_names(rows: Seq<AppUsage>) -> Set<Seq<char>> {
    Set::new(|k: Seq<char>| exists|a: int| 0 <= a < rows.len() && #[trigger] rows[a].name@ == k)
}

/// The names of the first `i` entries.
pub open spec fn prefix_names<V>(s: Seq<(String, V)>, i: int) -> Set<Seq<char>> {
    Set::new(|k: Seq<char>| exists|j: int| 0 <= j < i && #[trigger] s[j].0@ == k)
}

/// Rows that are each right, with distinct names, longest first.
pub open spec fn rows_ok(m: AggregatorModel, now: i64, rows: Seq<AppUsage>) -> bool {
    &&& forall|i: int| 0 <= i < rows.len() ==> usage_row_ok(m, now, #[trigger] rows[i])
    &&& forall|i: int, j: int| 0 <= i < j < rows.len() ==> #[trigger] rows[i].name@ != #[trigger] rows[j].name@
    &&& forall|i: int, j: int| 0 <= i < j < rows.len() ==> #[trigger] rows[i].duration_secs >= #[trigger] rows[j].duration_secs
}

proof fn lemma_prefix_names_step<V>(s: Seq<(String, V)>, i: int)
    requires
        names_unique(s),
        0 <= i < s.len(),
    ensures
        prefix_names(s, i + 1) == prefix_names(s, i).insert(s[i].0@),
        !prefix_names(s, i).contains(s[i].0@),
{
    assert(prefix_names(s, i + 1) =~= prefix_names(s, i).insert(s[i].0@));
    if prefix_names(s, i).contains(s[i].0@) {
        let j = choose|j: int| 0 <= j < i && #[trigger] s[j].0@ == s[i].0@;
        assert(s[j].0@ != s[i].0@);
    }
}

proof fn lemma_prefix_names_all<V>(s: Seq<(String, V)>)
    ensures
        prefix_names(s, s.len() as int) == entries_map(s).dom(),
{
    assert forall|k: Seq<char>| prefix_names(s, s.len() as int).contains(k) <==> entries_map(s).dom().contains(k) by {
        lemma_entries_map_dom(s, k);
    }
    assert(prefix_names(s, s.len() as int) =~= entries_map(s).dom());
}

proof fn lemma_insert_row(m: AggregatorModel, now: i64, old_rows: Seq<AppUsage>, rows: Seq<AppUsage>, row: AppUsage)
    requires
        rows_ok(m, now, old_rows),
        usage_row_ok(m, now, row),
        !row_names(old_rows).contains(row.name@),
        forall|i: int, j: int| 0 <= i < j < rows.len() ==> #[trigger] rows[i].duration_secs >= #[trigger] rows[j].duration_secs,
        exists|p: int| 0 <= p <= old_rows.len() && rows == old_rows.insert(p, row),
    ensures
        rows_ok(m, now, rows),
        row_names(rows) == row_names(old_rows).insert(row.name@),
{
    let p = choose|p: int| 0 <= p <= old_rows.len() && rows == old_rows.insert(p, row);
    assert forall|a: int| 0 <= a < rows.len() implies usage_row_ok(m, now, #[trigger] rows[a]) by {
        if a < p { assert(rows[a] == old_rows[a]); }
        else if a > p { assert(rows[a] == old_rows[a - 1]); }
    }
    assert forall|a: int, b: int| 0 <= a < b < rows.len() implies #[trigger] rows[a].name@ != #[trigger] rows[b].name@ by {
        if a < p { assert(rows[a] == old_rows[a]); }
        else if a > p { assert(rows[a] == old_rows[a - 1]); }
        if b < p { assert(rows[b] == old_rows[b]); }
        else if b > p { assert(rows[b] == old_rows[b - 1]); }
        if a == p { assert(row_names(old_rows).contains(rows[b].name@)); }
        if b == p { assert(row_names(old_rows).contains(rows[a].name@)); }
    }
    assert forall|k: Seq<char>| row_names(rows).contains(k) <==> row_names(old_rows).insert(row.name@).contains(k) by {
        if row_names(rows).contains(k) {
            let a = choose|a: int| 0 <= a < rows.len() && #[trigger] rows[a].name@ == k;
            if a < p { assert(rows[a] == old_rows[a]); }
            else if a > p { assert(rows[a] == old_rows[a - 1]); }
        }
        if row_names(old_rows).contains(k) {
            let a = choose|a: int| 0 <= a < old_rows.len() && #[trigger] old_rows[a].name@ == k;
            if a < p { assert(rows[a] == old_rows[a]); } else { assert(rows[a + 1] == old_rows[a]); }
        }
        if k == row.name@ {
            assert(rows[p] == row);
        }
    }
    assert(row_names(rows) =~= row_names(old_rows).insert(row.name@));
}

proof fn lemma_rows_ok_list(m: AggregatorModel, now: i64, rows: Seq<AppUsage>)
    requires
        rows_ok(m, now, rows),
        forall|k: Seq<char>| m.totals.contains_key(k) ==> #[trigger] row_names(rows).contains(k),
        forall|c: OpenSession| m.current == Some(c) ==> #[trigger] row_names(rows).contains(c.info.exe_name@),
    ensures
        usage_list_ok(m, now, rows),
{
    assert forall|k: Seq<char>| #[trigger] m.totals.contains_key(k) implies exists|i: int| 0 <= i < rows.len() && #[trigger] rows[i].name@ == k by {
        assert(row_names(rows).contains(k));
    }
    assert forall|c: OpenSession| m.current == Some(c) implies exists|i: int| 0 <= i < rows.len() && #[trigger] rows[i].name@ == c.info.exe_name@ by {
        assert(row_names(rows).contains(c.info.exe_name@));
    }
}

/// Law: every step keeps the model invariant (no session is open while
/// the user is idle).
pub proof fn lemma_step_keeps_wf(m: AggregatorModel, e: TrackerEvent, now: i64)
    requires
        model_wf(m),
    ensures
        model_wf(spec_step(m, e, now).0),
{
}

/// Law: totals only grow by closed sessions. A step that closes a session
/// adds exactly that session's whole seconds to its application; any other
/// step leaves the totals as they were.
pub proof fn lemma_totals_follow_closed_sessions(m: AggregatorModel, e: TrackerEvent, now: i64)
    ensures
        ({
            let (m2, out) = spec_step(m, e, now);
            match out.closed {
                Some(s) => m2.totals == add_to_total(m.totals, s.exe_name@, elapsed_secs(s.started_at, s.ended_at)),
                None => m2.totals == m.totals,
            }
        }),
{
}

/// Law: while the user is idle no time is accounted: no event but
/// `IdleEnded` closes or opens a session, and the totals stay unchanged.
pub proof fn lemma_idle_counts_nothing(m: AggregatorModel, e: TrackerEvent, now: i64)
    requires
        model_wf(m),
        m.is_idle,
        !(e is IdleEnded),
    ensures
        spec_step(m, e, now).0.totals == m.totals,
        spec_step(m, e, now).0.current is None,
        spec_step(m, e, now).0.is_idle,
        spec_step(m, e, now).1.closed is None,
{
}

/// Law: when the foreground window changes while the user is active, the
/// previous session ends exactly when the new one starts.
pub proof fn lemma_sessions_are_contiguous(m: AggregatorModel, info: ProcessInfo, now: i64)
    requires
        !m.is_idle,
    ensures
        ({
            let (m2, out) = spec_step(m, TrackerEvent::WindowChanged(info), now);
            &&& m2.current == Some(OpenSession { info, started_at: now, was_fullscreen: false })
            &&& out.closed matches Some(s) ==> s.ended_at == now
            &&& (out.closed is Some <==> m.current is Some)
        }),
{
}

/// Law: a window change while the user is active closes the session in
/// progress whole, whatever application comes next (the same one
/// included): the closed session runs from the open session's own start
/// to `now`, keeps its application, title and a cleared fullscreen flag,
/// and that application's total grows by the whole seconds from its start
/// to `now` (capped at `u64::MAX`), truncated, and 0 if `now` is not later.
pub proof fn lemma_window_change_closes_whole_session(m: AggregatorModel, info: ProcessInfo, now: i64)
    requires
        !m.is_idle,
        m.current is Some,
    ensures
        ({
            let c = m.current.unwrap();
            let k = c.info.exe_name@;
            let (m2, out) = spec_step(m, TrackerEvent::WindowChanged(info), now);
            let before: int = if m.totals.contains_key(k) { m.totals[k] as int } else { 0 };
            let secs: int = if now > c.started_at { (now - c.started_at) / 1_000_000_000 } else { 0 };
            &&& out.closed == Some(Session {
                exe_name: c.info.exe_name,
                window_title: c.info.window_title,
                started_at: c.started_at,
                ended_at: now,
                was_fullscreen: false,
            })
            &&& m2.totals.contains_key(k)
            &&& m2.totals[k] as int == if before + secs > u64::MAX { u64::MAX as int } else { before + secs }
            &&& forall|j: Seq<char>| j != k ==> m2.totals.contains_key(j) == m.totals.contains_key(j)
                && (m.totals.contains_key(j) ==> m2.totals[j] == m.totals[j])
        }),
{
}

/// Law: when the user goes idle, the session in progress is closed whole:
/// from its own start to `now`, keeping its application, title and
/// fullscreen flag; its application's total grows by the whole seconds
/// from its start to `now` (capped at `u64::MAX`), and no session stays
/// open.
pub proof fn lemma_idle_start_closes_whole_session(m: AggregatorModel, now: i64)
    requires
        !m.is_idle,
        m.current is Some,
    ensures
        ({
            let c = m.current.unwrap();
            let k = c.info.exe_name@;
            let (m2, out) = spec_step(m, TrackerEvent::IdleStarted, now);
            let before: int = if m.totals.contains_key(k) { m.totals[k] as int } else { 0 };
            let secs: int = if now > c.started_at { (now - c.started_at) / 1_000_000_000 } else { 0 };
            &&& out.closed == Some(Session {
                exe_name: c.info.exe_name,
                window_title: c.info.window_title,
                started_at: c.started_at,
                ended_at: now,
                was_fullscreen: c.was_fullscreen,
            })
            &&& m2.totals.contains_key(k)
            &&& m2.totals[k] as int == if before + secs > u64::MAX { u64::MAX as int } else { before + secs }
            &&& m2.current is None
            &&& m2.is_idle
        }),
{
}

/// The state after the events `evs`, handed over in order at time `now`.
pub open spec fn apply_events(m: AggregatorModel, evs: Seq<TrackerEvent>, now: i64) -> AggregatorModel
    decreases evs.len(),
{
    if evs.len() == 0 {
        m
    } else {
        spec_step(apply_events(m, evs.drop_last(), now), evs.last(), now).0
    }
}

/// Law: the events that an X11 foreground change produces leave the
/// accounting, for an active user, with a session open for the new window
/// since `now` that is marked fullscreen exactly when the new window is
/// fullscreen, whatever the previous window was.
pub proof fn lemma_x11_change_marks_fullscreen(m: AggregatorModel, info: ProcessInfo, is_fs: bool, was_prev_fs: bool, now: i64)
    requires
        !m.is_idle,
    ensures
        apply_events(m, spec_x11_foreground_events(info, is_fs, was_prev_fs), now).current
            == Some(OpenSession { info, started_at: now, was_fullscreen: is_fs }),
{
    let evs = spec_x11_foreground_events(info, is_fs, was_prev_fs);
    assert(evs[0] == TrackerEvent::WindowChanged(info));
    let first = seq![evs[0]];
    assert(apply_events(m, first, now) == spec_step(apply_events(m, first.drop_last(), now), first.last(), now).0);
    assert(first.drop_last() =~= Seq::<TrackerEvent>::empty());
    if evs.len() == 1 {
        assert(evs =~= first);
    } else {
        assert(evs.len() == 2);
        assert(evs.drop_last() =~= first);
    }
}

/// Law: the sessions handed to storage never run backwards in time when
/// the clock does not: a session closed at `now` started at its opening
/// time, which is not after `now` when the clock is monotonic.
pub proof fn lemma_closed_session_times(m: AggregatorModel, e: TrackerEvent, now: i64)
    requires
        m.current matches Some(c) ==> c.started_at <= now,
    ensures
        spec_step(m, e, now).1.closed matches Some(s) ==> s.started_at <= s.ended_at && s.ended_at == now,
{
}

/// Sessions waiting to be written to disk.
pub struct SessionBuffer {
    pending: Vec<Session>,
}

impl View for SessionBuffer {
    type V = Seq<Session>;

    closed spec fn view(&self) -> Seq<Session> {
        self.pending@
    }
}

impl SessionBuffer {
    /// An empty buffer.
    pub fn new() -> (r: Self)
        ensures
            r@ == Seq::<Session>::empty(),
    {
        SessionBuffer { pending: Vec::new() }
    }

    /// Buffers `session` cut at the local midnights that fall inside it
    /// (see `local_midnights`), so that each piece lies within one local
    /// day. Does not touch the disk.
    pub fn queue(&mut self, session: Session)
        ensures
            exists|b: Seq<i64>, f: Seq<Session>|
                cuts_ok(session, b) && split_ok(session, b, f) && final(self)@ == old(self)@ + f
                && (session.started_at < session.ended_at ==>
                    exists|steps: Seq<MidnightStep>| midnight_walk(session.started_at, session.ended_at, steps, b)),
    {
        let boundaries = local_midnights(session.started_at, session.ended_at);
        let ghost b = boundaries@;
        self.queue_split(session, &boundaries);
        assert(cuts_ok(session, b));
    }

    /// Buffers `session` cut at the given increasing points `boundaries`
    /// inside it (see `split_session`).
    pub fn queue_split(&mut self, session: Session, boundaries: &Vec<i64>)
        requires
            session.started_at < session.ended_at ==> cuts_ok(session, boundaries@),
        ensures
            exists|f: Seq<Session>| split_ok(session, boundaries@, f) && final(self)@ == old(self)@ + f,
    {
        let mut pieces = split_session(&session, boundaries);
        let ghost f = pieces@;
        self.pending.append(&mut pieces);
        assert(split_ok(session, boundaries@, f) && self@ == old(self)@ + f);
    }

    /// Buffers `session` as it is, without cutting it at midnight.
    pub fn queue_raw(&mut self, session: Session)
        ensures
            final(self)@ == old(self)@.push(session),
    {
        self.pending.push(session);
    }

    /// The buffered sessions, oldest first.
    pub fn sessions(&self) -> (r: &Vec<Session>)
        ensures
            r@ == self@,
    {
        &self.pending
    }

    pub fn is_empty(&self) -> (r: bool)
        ensures
            r == (self@.len() == 0),
    {
        self.pending.len() == 0
    }

    /// Drops everything buffered (after a successful write, or when the
    /// history is cleared).
    pub fn clear(&mut self)
        ensures
            final(self)@ == Seq::<Session>::empty(),
    {
        self.pending.clear();
    }
}

} // verus!
