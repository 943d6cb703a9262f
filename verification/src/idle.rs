//! Idle detection: polling an `IdleDetector` against the configured
//! threshold and reporting when the user leaves and comes back.
use vstd::prelude::*;
use crate::traits::IdleDetector;
use crate::types::TrackerEvent;

verus! {

/// Seconds between two polls of the detector.
pub const POLL_INTERVAL_SECS: u64 = 5;

/// Polls any `IdleDetector` and reports `IdleStarted` / `IdleEnded`.
pub struct IdleWatcher<D: IdleDetector> {
    detector: D,
    poll_interval_secs: u64,
}

impl<D: IdleDetector> IdleWatcher<D> {
    pub closed spec fn spec_detector(&self) -> D {
        self.detector
    }

    pub closed spec fn spec_poll_interval_secs(&self) -> u64 {
        self.poll_interval_secs
    }

    /// A watcher that polls `detector` every five seconds.
    pub fn new(detector: D) -> (r: Self)
        ensures
            r.spec_detector() == detector,
            r.spec_poll_interval_secs() == POLL_INTERVAL_SECS,
    {
        IdleWatcher { detector, poll_interval_secs: POLL_INTERVAL_SECS }
    }

    /// The detector that is polled.
    pub fn detector(&self) -> (r: &D)
        ensures
            *r == self.spec_detector(),
    {
        &self.detector
    }

    /// Seconds between polls.
    pub fn poll_interval_secs(&self) -> (r: u64)
        ensures
            r == self.spec_poll_interval_secs(),
    {
        self.poll_interval_secs
    }
}

/// The idle threshold in seconds.
pub open spec fn threshold_secs(threshold_mins: u32) -> nat {
    threshold_mins as nat * 60
}

/// One poll: the user counts as idle when the time since the last input
/// has reached the threshold (`idle_secs` is that time in whole seconds:
/// a duration reaches a whole number of seconds exactly when its whole
/// seconds do). An event is reported only when the state flips.
pub open spec fn spec_idle_transition(was_idle: bool, idle_secs: u64, threshold_mins: u32) -> (bool, Option<TrackerEvent>) {
    let now_idle = idle_secs >= threshold_secs(threshold_mins);
    if now_idle && !was_idle {
        (true, Some(TrackerEvent::IdleStarted))
    } else if !now_idle && was_idle {
        (false, Some(TrackerEvent::IdleEnded))
    } else {
        (was_idle, None)
    }
}

/// Decides one poll of the watcher: the new idle state and the event to
/// send, if any.
pub fn idle_transition(was_idle: bool, idle_secs: u64, threshold_mins: u32) -> (r: (bool, Option<TrackerEvent>))
    ensures
        r == spec_idle_transition(was_idle, idle_secs, threshold_mins),
{
    let threshold: u64 = threshold_mins as u64 * 60;
    let now_idle = idle_secs >= threshold;
    if now_idle && !was_idle {
        (true, Some(TrackerEvent::IdleStarted))
    } else if !now_idle && was_idle {
        (false, Some(TrackerEvent::IdleEnded))
    } else {
        (was_idle, None)
    }
}

/// Law: the watcher's state always equals "idle time has reached the
/// threshold" after a poll, and it reports `IdleStarted` exactly on a
/// change from active to idle and `IdleEnded` exactly on the change back,
/// so the reported events alternate.
pub proof fn lemma_idle_events_alternate(was_idle: bool, idle_secs: u64, threshold_mins: u32)
    ensures
        ({
            let (now_idle, ev) = spec_idle_transition(was_idle, idle_secs, threshold_mins);
            &&& now_idle == (idle_secs >= threshold_secs(threshold_mins))
            &&& (ev matches Some(TrackerEvent::IdleStarted)) <==> (!was_idle && now_idle)
            &&& (ev matches Some(TrackerEvent::IdleEnded)) <==> (was_idle && !now_idle)
            &&& (ev is None) <==> (was_idle == now_idle)
        }),
{
}

/// The idle state and the events sent after the polls `polls`, starting
/// from "not idle"; each poll gives the whole seconds since the last input
/// and the threshold in minutes read for that poll.
pub open spec fn idle_run(polls: Seq<(u64, u32)>) -> (bool, Seq<TrackerEvent>)
    decreases polls.len(),
{
    if polls.len() == 0 {
        (false, Seq::empty())
    } else {
        let (was_idle, events) = idle_run(polls.drop_last());
        let (now_idle, ev) = spec_idle_transition(was_idle, polls.last().0, polls.last().1);
        (now_idle, match ev {
            Some(e) => events.push(e),
            None => events,
        })
    }
}

/// Law: over any run of polls the watcher sends only `IdleStarted` and
/// `IdleEnded`, alternating and starting with `IdleStarted`; after a poll
/// it is idle exactly when that poll's idle time reached its threshold,
/// which is exactly when the last event sent was `IdleStarted`.
pub proof fn lemma_idle_run_alternates(polls: Seq<(u64, u32)>)
    ensures
        ({
            let (idle, events) = idle_run(polls);
            &&& forall|i: int| 0 <= i < events.len() ==>
                (#[trigger] events[i] matches TrackerEvent::IdleStarted) == (i % 2 == 0)
                && (events[i] matches TrackerEvent::IdleStarted || events[i] matches TrackerEvent::IdleEnded)
            &&& idle == (events.len() % 2 == 1)
            &&& polls.len() > 0 ==> idle == (polls.last().0 >= threshold_secs(polls.last().1))
        }),
    decreases polls.len(),
{
    if polls.len() > 0 {
        lemma_idle_run_alternates(polls.drop_last());
        let (was_idle, events) = idle_run(polls.drop_last());
        let (now_idle, ev) = spec_idle_transition(was_idle, polls.last().0, polls.last().1);
        let (idle, events2) = idle_run(polls);
        match ev {
            Some(e) => {
                assert(events2 == events.push(e));
                assert forall|i: int| 0 <= i < events2.len() implies
                    (#[trigger] events2[i] matches TrackerEvent::IdleStarted) == (i % 2 == 0)
                    && (events2[i] matches TrackerEvent::IdleStarted || events2[i] matches TrackerEvent::IdleEnded) by {
                    if i < events.len() {
                        assert(events2[i] == events[i]);
                    }
                }
            },
            None => {},
        }
    }
}

} // verus!
