use focus_tracker::classify::Transition;
use focus_tracker::sample::{get_focused_window, FocusSample};
use focus_tracker::tracker::{Tracker, TrackerError};

const IDLE_THRESHOLD: u64 = 300_000;
const ABANDON_THRESHOLD: u64 = 1_800_000;

fn sample(app: &str, title: &str, idle_ms: u64, at: u64) -> FocusSample {
    FocusSample {
        app_id: app.to_string(),
        title: title.to_string(),
        idle_ms,
        sampled_at: at,
    }
}

fn started(debounce: u64) -> Tracker {
    let mut t = Tracker::new();
    t.start(1000, IDLE_THRESHOLD, ABANDON_THRESHOLD, debounce)
        .expect("a fresh tracker starts");
    t
}

#[test]
fn two_apps_make_one_closed_and_one_open_session() {
    let mut t = started(2);
    assert!(matches!(t.poll(sample("A", "a", 0, 100)), Ok(Transition::NoChange)));
    assert!(matches!(
        t.poll(sample("A", "a", 0, 200)),
        Ok(Transition::FocusChanged { .. })
    ));
    assert!(matches!(t.poll(sample("B", "b", 0, 300)), Ok(Transition::NoChange)));
    assert!(matches!(
        t.poll(sample("B", "b", 0, 400)),
        Ok(Transition::FocusChanged { .. })
    ));
    let closed = t.drain_closed();
    assert_eq!(closed.len(), 1);
    assert_eq!(closed[0].app_id, "A");
    assert_eq!(closed[0].started_at, 100);
    assert_eq!(closed[0].ended_at, Some(300));
    assert_eq!(closed[0].total_idle_ms, 0);
    let open = t.pipeline.open.as_ref().expect("B's session is open");
    assert_eq!(open.app_id, "B");
    assert_eq!(open.started_at, 300);
}

#[test]
fn idle_and_return_accumulate_idle_without_closing() {
    let mut t = started(2);
    t.poll(sample("A", "a", 100_000, 1000)).unwrap();
    t.poll(sample("A", "a", 100_000, 2000)).unwrap();
    assert!(matches!(
        t.poll(sample("A", "a", 310_000, 3000)),
        Ok(Transition::WentIdle { since: 3000 })
    ));
    assert!(matches!(
        t.poll(sample("A", "a", 0, 4000)),
        Ok(Transition::ReturnedFromIdle { since: 3000, until: 4000 })
    ));
    assert!(t.drain_closed().is_empty());
    let open = t.pipeline.open.as_ref().expect("the session stays open");
    assert_eq!(open.app_id, "A");
    assert_eq!(open.started_at, 1000);
    assert_eq!(open.total_idle_ms, 1000);
}

#[test]
fn idle_past_abandon_closes_at_idle_onset() {
    let mut t = started(2);
    t.poll(sample("A", "a", 0, 1000)).unwrap();
    t.poll(sample("A", "a", 0, 2000)).unwrap();
    assert!(matches!(
        t.poll(sample("A", "a", 310_000, 3000)),
        Ok(Transition::WentIdle { since: 3000 })
    ));
    assert!(
        matches!(t.poll(sample("A", "a", 1_900_000, 4000)), Ok(Transition::NoChange)),
        "idle does not re-trigger while it persists"
    );
    let closed = t.drain_closed();
    assert_eq!(closed.len(), 1);
    assert_eq!(closed[0].app_id, "A");
    assert_eq!(closed[0].started_at, 1000);
    assert_eq!(closed[0].ended_at, Some(3000));
    assert!(t.pipeline.open.is_none());
    assert!(matches!(
        t.poll(sample("A", "a", 0, 5000)),
        Ok(Transition::ReturnedFromIdle { .. })
    ));
    assert!(
        t.pipeline.open.is_none(),
        "no session may open before a fresh focus persists"
    );
    assert!(matches!(
        t.poll(sample("A", "a", 0, 6000)),
        Ok(Transition::FocusChanged { .. })
    ));
    let open = t.pipeline.open.as_ref().expect("a fresh session opened");
    assert_eq!(open.started_at, 5000);
    assert_eq!(open.total_idle_ms, 0);
}

#[test]
fn short_flicker_neither_transitions_nor_closes() {
    let mut t = started(2);
    t.poll(sample("A", "a", 0, 100)).unwrap();
    t.poll(sample("A", "a", 0, 200)).unwrap();
    assert!(matches!(t.poll(sample("B", "b", 0, 300)), Ok(Transition::NoChange)));
    assert!(matches!(t.poll(sample("A", "a", 0, 400)), Ok(Transition::NoChange)));
    assert!(matches!(t.poll(sample("A", "a", 0, 500)), Ok(Transition::NoChange)));
    assert!(t.drain_closed().is_empty());
    let open = t.pipeline.open.as_ref().expect("A's session survives the flicker");
    assert_eq!(open.app_id, "A");
    assert_eq!(open.started_at, 100);
}

#[test]
fn repeated_idle_pairs_accumulate_within_the_session_span() {
    let mut t = started(2);
    t.poll(sample("A", "a", 0, 1000)).unwrap();
    t.poll(sample("A", "a", 0, 2000)).unwrap();
    t.poll(sample("A", "a", 310_000, 3000)).unwrap();
    t.poll(sample("A", "a", 0, 4000)).unwrap();
    let after_first = t.pipeline.open.as_ref().unwrap().total_idle_ms;
    t.poll(sample("A", "a", 320_000, 5000)).unwrap();
    t.poll(sample("A", "a", 0, 6000)).unwrap();
    let after_second = t.pipeline.open.as_ref().unwrap().total_idle_ms;
    assert_eq!(after_first, 1000);
    assert_eq!(after_second, 2000);
    assert!(after_second >= after_first, "idle accumulation never decreases");
    let closed = t.stop(7000).unwrap().unwrap();
    assert_eq!(closed.total_idle_ms, 2000);
    assert!(
        closed.total_idle_ms <= closed.ended_at.unwrap() - closed.started_at,
        "idle never exceeds the wall-clock span"
    );
}

#[test]
fn backdated_return_never_reaches_before_idle_start() {
    let mut t = Tracker::new();
    t.start(1000, 1000, ABANDON_THRESHOLD, 2).unwrap();
    t.poll(sample("A", "a", 0, 100)).unwrap();
    t.poll(sample("A", "a", 0, 200)).unwrap();
    assert!(matches!(
        t.poll(sample("A", "a", 5000, 300)),
        Ok(Transition::WentIdle { since: 300 })
    ));
    assert!(matches!(
        t.poll(sample("A", "a", 600, 400)),
        Ok(Transition::ReturnedFromIdle { .. })
    ));
    let open = t.pipeline.open.as_ref().expect("the session stays open");
    assert_eq!(open.total_idle_ms, 0, "a return backdated before idle start adds nothing");
}

#[test]
fn stop_closes_and_returns_the_open_session() {
    let mut t = started(2);
    t.poll(sample("A", "a", 0, 100)).unwrap();
    t.poll(sample("A", "a", 0, 200)).unwrap();
    let closed = t.stop(900).unwrap().expect("the open session comes back closed");
    assert_eq!(closed.app_id, "A");
    assert_eq!(closed.started_at, 100);
    assert_eq!(closed.ended_at, Some(900));
    assert!(t.pipeline.open.is_none());
}

#[test]
fn stop_while_stopped_is_a_lifecycle_error_and_changes_nothing() {
    let mut t = started(2);
    t.poll(sample("A", "a", 0, 100)).unwrap();
    t.poll(sample("A", "a", 0, 200)).unwrap();
    t.poll(sample("B", "b", 0, 300)).unwrap();
    t.poll(sample("B", "b", 0, 400)).unwrap();
    t.stop(900).unwrap();
    assert!(matches!(t.stop(950), Err(TrackerError::NotRunning)));
    let closed = t.drain_closed();
    assert_eq!(closed.len(), 1, "the failed stop did not touch the queue");
    assert_eq!(closed[0].app_id, "A");
    assert_eq!(closed[0].ended_at, Some(300));
}

#[test]
fn stop_without_an_open_session_returns_none() {
    let mut t = started(2);
    t.poll(sample("A", "a", 0, 100)).unwrap();
    assert!(t.stop(900).unwrap().is_none(), "no session was confirmed yet");
}

#[test]
fn restart_never_reaches_back_into_recorded_history() {
    let mut t = started(2);
    t.poll(sample("A", "a", 0, 100)).unwrap();
    t.poll(sample("A", "a", 0, 200)).unwrap();
    let first = t.stop(900).unwrap().expect("A's session closes at stop time");
    assert_eq!(first.ended_at, Some(900));
    t.start(1000, IDLE_THRESHOLD, ABANDON_THRESHOLD, 2).unwrap();
    t.poll(sample("B", "b", 0, 100)).unwrap();
    t.poll(sample("B", "b", 0, 200)).unwrap();
    let open = t.pipeline.open.as_ref().expect("B's session is open");
    assert_eq!(
        open.started_at, 900,
        "a stale clock cannot start a session inside the recorded timeline"
    );
}

#[test]
fn start_while_running_is_a_lifecycle_error() {
    let mut t = started(2);
    assert!(matches!(
        t.start(1000, IDLE_THRESHOLD, ABANDON_THRESHOLD, 2),
        Err(TrackerError::AlreadyRunning)
    ));
}

#[test]
fn poll_while_stopped_is_a_lifecycle_error() {
    let mut t = Tracker::new();
    assert!(matches!(
        t.poll(sample("A", "a", 0, 100)),
        Err(TrackerError::NotRunning)
    ));
}

#[test]
fn closed_sessions_drain_in_closing_order_exactly_once() {
    let mut t = started(1);
    t.poll(sample("A", "a", 0, 100)).unwrap();
    t.poll(sample("B", "b", 0, 200)).unwrap();
    t.poll(sample("C", "c", 0, 300)).unwrap();
    let closed = t.drain_closed();
    assert_eq!(closed.len(), 2);
    assert_eq!(closed[0].app_id, "A");
    assert_eq!(closed[1].app_id, "B");
    assert_eq!(
        closed[0].ended_at.unwrap(),
        closed[1].started_at,
        "a confirmed focus change leaves no gap"
    );
    assert!(t.drain_closed().is_empty());
}

#[test]
fn current_focus_snapshots_the_latest_sample() {
    let mut t = started(2);
    assert!(t.current_focus().is_none());
    t.poll(sample("A", "a", 7, 100)).unwrap();
    let s = t.current_focus().expect("a sample was polled");
    assert_eq!(s.app_id, "A");
    assert_eq!(s.idle_ms, 7);
    assert_eq!(s.sampled_at, 100);
}

#[test]
fn failed_window_query_leaves_the_tracker_alone() {
    let mut t = started(2);
    t.poll(sample("A", "a", 0, 100)).unwrap();
    t.poll(sample("A", "a", 0, 200)).unwrap();
    assert!(get_focused_window(None).is_none());
    let open = t.pipeline.open.as_ref().expect("the snapshot query touched nothing");
    assert_eq!(open.app_id, "A");
    assert_eq!(open.started_at, 100);
    assert!(t.drain_closed().is_empty());
}
