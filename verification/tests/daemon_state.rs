use zxtracker::daemon::{session_display_name, IdleStep, Tracker, DEBOUNCE_SECS, IDLE_THRESHOLD_SECS};
use zxtracker::desktop::DesktopDB;
use zxtracker::ipc::SharedState;
use zxtracker::names::NameMap;
use zxtracker::usage::SecondsMap;

fn focus(t: &mut Tracker, app: &str, pid: i64, now: i64) -> Option<zxtracker::daemon::CommitPlan> {
    t.observe_focus(app.to_string(), pid, format!("/usr/bin/{}", app), now)
}

#[test]
fn constants() {
    assert_eq!(IDLE_THRESHOLD_SECS, 300);
    assert_eq!(DEBOUNCE_SECS, 2);
}

#[test]
fn a_window_is_stored_after_the_debounce() {
    let mut t = Tracker::new();
    assert!(matches!(t.observe_idle(0, 100), IdleStep::Active));
    let plan = focus(&mut t, "firefox", 1, 100).unwrap();
    assert!(plan.record.is_none() && plan.close.is_none());
    assert!(t.due_session(101).is_none());
    let due = t.due_session(102).unwrap();
    assert_eq!(due.app_id, "firefox");
    assert_eq!(due.pid, 1);
    assert_eq!(due.path, "/usr/bin/firefox");
    assert_eq!(due.started, 100);
    t.session_started(7);
    assert_eq!(t.active_app(), Some("firefox".to_string()));
    assert!(t.due_session(103).is_none());
}

#[test]
fn the_same_window_changes_nothing() {
    let mut t = Tracker::new();
    assert!(focus(&mut t, "firefox", 1, 100).is_some());
    assert!(focus(&mut t, "firefox", 1, 150).is_none());
    assert_eq!(t.due_session(150).unwrap().started, 100);
    assert!(focus(&mut t, "firefox", 2, 151).is_some());
}

#[test]
fn switching_closes_the_open_session() {
    let mut t = Tracker::new();
    focus(&mut t, "firefox", 1, 100);
    t.due_session(105).unwrap();
    t.session_started(7);
    let plan = focus(&mut t, "code", 9, 200).unwrap();
    assert_eq!(plan.close, Some(7));
    assert!(plan.record.is_none());
    assert_eq!(plan.now, 200);
    assert_eq!(t.active_app(), None);
}

#[test]
fn a_short_pending_window_is_dropped_and_a_long_one_recorded() {
    let mut t = Tracker::new();
    focus(&mut t, "firefox", 1, 100);
    let plan = focus(&mut t, "code", 2, 101).unwrap();
    assert!(plan.record.is_none());
    let plan = focus(&mut t, "vim", 3, 103).unwrap();
    let rec = plan.record.unwrap();
    assert_eq!(rec.app_id, "code");
    assert_eq!(rec.started, 101);
    let plan = t.shutdown(110);
    assert_eq!(plan.record.unwrap().app_id, "vim");
    assert!(plan.close.is_none());
}

#[test]
fn going_idle_ends_everything_and_coming_back_starts_fresh() {
    let mut t = Tracker::new();
    focus(&mut t, "firefox", 1, 100);
    t.due_session(102).unwrap();
    t.session_started(3);
    match t.observe_idle(IDLE_THRESHOLD_SECS, 400) {
        IdleStep::Began(plan) => {
            assert_eq!(plan.close, Some(3));
            assert!(plan.record.is_none());
        }
        _ => panic!("expected the idle period to begin"),
    }
    assert!(t.is_idle());
    assert_eq!(t.active_app(), None);
    assert!(matches!(t.observe_idle(1000, 500), IdleStep::StillIdle));
    assert!(matches!(t.observe_idle(299, 600), IdleStep::Ended));
    assert!(!t.is_idle());
    assert!(focus(&mut t, "firefox", 1, 601).is_some());
}

#[test]
fn display_name_for_a_new_session() {
    let db = DesktopDB::new();
    assert_eq!(session_display_name("firefox", "", Some("Web".to_string()), &db), ("Web".to_string(), false));
    assert_eq!(session_display_name("firefox", "", Some(String::new()), &db), ("Firefox".to_string(), true));
    assert_eq!(session_display_name("x", "/usr/bin/code", None, &db), ("Code".to_string(), true));
}

#[test]
fn seconds_map_counts_and_sorts() {
    let rows = vec![
        ("a".to_string(), 5i64, 1i64),
        ("b".to_string(), 9, 1),
        ("a".to_string(), 3, 2),
    ];
    let mut m = SecondsMap::from_rows(&rows);
    assert_eq!(m.get("a"), Some(3));
    assert_eq!(m.get("b"), Some(9));
    m.add_second("a");
    m.add_second("c");
    assert_eq!(m.get("a"), Some(4));
    assert_eq!(m.get("c"), Some(1));
    assert_eq!(
        m.sorted_usage(),
        vec![("b".to_string(), 9), ("a".to_string(), 4), ("c".to_string(), 1)]
    );
}

#[test]
fn shared_state_update() {
    let mut s = SharedState::new();
    assert!(!s.is_idle && s.app_id.is_empty());
    let mut m = SecondsMap::new();
    m.add_second("firefox");
    s.update(&m, "", true, &DesktopDB::new(), &NameMap::new());
    assert_eq!(s.title, "[idle]");
    assert!(s.is_idle);
    assert_eq!(s.today_usage, vec![("firefox".to_string(), 1)]);
    s.update(&m, "org.mozilla.firefox", false, &DesktopDB::new(), &NameMap::new());
    assert_eq!(s.title, "Firefox");
    assert_eq!(s.app_id, "org.mozilla.firefox");
    assert!(s.weekly_usage.is_empty() && s.tags.is_empty());
}

/// Runs the loop's decisions over the given seconds: (time, idle time, focused app and
/// pid). Returns the sessions written, as (app, start, end).
fn run_ticks(ticks: &[(i64, u64, Option<(&str, i64)>)]) -> (Tracker, Vec<(String, i64, i64)>) {
    let mut t = Tracker::new();
    let mut open: Vec<(i64, String, i64)> = Vec::new();
    let mut written: Vec<(String, i64, i64)> = Vec::new();
    let mut next_id = 1i64;
    let apply = |plan: zxtracker::daemon::CommitPlan, open: &mut Vec<(i64, String, i64)>, written: &mut Vec<(String, i64, i64)>| {
        if let Some(p) = plan.record {
            written.push((p.app_id.clone(), p.started, plan.now));
        }
        if let Some(id) = plan.close {
            let k = open.iter().position(|o| o.0 == id).unwrap();
            let (_, app, start) = open.remove(k);
            written.push((app, start, plan.now));
        }
    };
    for &(now, idle, window) in ticks {
        if let IdleStep::Began(plan) = t.observe_idle(idle, now) {
            apply(plan, &mut open, &mut written);
        }
        if t.is_idle() {
            assert_eq!(t.active_app(), None);
            continue;
        }
        if let Some((app, pid)) = window {
            if let Some(plan) = focus(&mut t, app, pid, now) {
                apply(plan, &mut open, &mut written);
            }
        }
        if let Some(p) = t.due_session(now) {
            open.push((next_id, p.app_id.clone(), p.started));
            t.session_started(next_id);
            next_id += 1;
        }
    }
    (t, written)
}

#[test]
fn a_run_writes_only_sessions_of_two_seconds_or_more() {
    let ticks = [
        (10, 0, Some(("firefox", 1))),
        (11, 0, Some(("code", 2))),
        (12, 0, Some(("code", 2))),
        (13, 0, Some(("code", 2))),
        (14, 0, Some(("firefox", 1))),
        (15, 0, Some(("firefox", 1))),
        (16, 0, Some(("firefox", 1))),
        (17, 300, Some(("firefox", 1))),
        (18, 400, Some(("code", 2))),
        (19, 10, Some(("code", 2))),
        (20, 10, Some(("code", 2))),
        (21, 10, Some(("code", 2))),
    ];
    let (mut t, mut written) = run_ticks(&ticks);
    let plan = t.shutdown(22);
    assert_eq!(plan.close, Some(3));
    written.push(("code".to_string(), 19, plan.now));
    assert_eq!(
        written,
        vec![("code".to_string(), 11, 14), ("firefox".to_string(), 14, 17), ("code".to_string(), 19, 22)]
    );
    assert!(written.iter().all(|(_, start, end)| end - start >= DEBOUNCE_SECS));
}

#[test]
fn a_second_is_counted_only_for_the_open_session() {
    let mut t = Tracker::new();
    let mut secs = SecondsMap::from_rows(&vec![("firefox".to_string(), 10i64, 1i64)]);
    t.credit_second(&mut secs);
    assert_eq!(secs.get("firefox"), Some(10));
    focus(&mut t, "firefox", 1, 100);
    t.credit_second(&mut secs);
    assert_eq!(secs.get("firefox"), Some(10));
    t.due_session(102).unwrap();
    t.session_started(1);
    t.credit_second(&mut secs);
    assert_eq!(secs.get("firefox"), Some(11));
    focus(&mut t, "code", 2, 103);
    t.due_session(105).unwrap();
    t.session_started(2);
    t.credit_second(&mut secs);
    assert_eq!(secs.get("code"), Some(1));
}
