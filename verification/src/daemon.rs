//! The daemon's decisions: when a focused window becomes a stored session, when
//! idleness closes the open ones. The daemon's loop performs what these decide.
use vstd::prelude::*;
use crate::desktop::{resolve, resolved_name, DesktopDB};
use crate::names::NameMap;
use crate::usage::SecondsMap;

verus! {

/// Idle time from which the user counts as away.
pub const IDLE_THRESHOLD_SECS: u64 = 300;

/// How long a window must keep the focus before its session is stored.
pub const DEBOUNCE_SECS: i64 = 2;

/// A window that has the focus but has not kept it long enough to be stored.
pub struct PendingSession {
    pub app_id: String,
    pub pid: i64,
    pub path: String,
    pub started: i64,
}

impl PendingSession {
    /// A copy of this pending session.
    pub fn duplicate(&self) -> (r: PendingSession)
        ensures
            r == *self,
    {
        PendingSession {
            app_id: self.app_id.clone(),
            pid: self.pid,
            path: self.path.clone(),
            started: self.started,
        }
    }
}

/// A stored session that is still open.
pub struct ActiveSession {
    pub app_id: String,
    pub pid: i64,
    pub path: String,
    /// When the window got the focus.
    pub started: i64,
    pub db_id: i64,
}

/// What to write when the focus periods end at `now`.
pub struct CommitPlan {
    /// A pending window that kept the focus long enough: store it from its start to `now`.
    pub record: Option<PendingSession>,
    /// The id of a stored session to close at `now`.
    pub close: Option<i64>,
    /// The time at which the periods end.
    pub now: i64,
}

/// The outcome of looking at the user's idle time.
pub enum IdleStep {
    /// The user has just gone idle: write the plan.
    Began(CommitPlan),
    /// The user is back.
    Ended,
    /// The user is still idle.
    StillIdle,
    /// The user is still active.
    Active,
}

/// A pending window kept the focus long enough by `now` to be stored.
pub open spec fn lasted(p: PendingSession, now: i64) -> bool {
    now - p.started >= DEBOUNCE_SECS
}

/// What ending the current periods at `now` writes: the pending window if it lasted,
/// and the closing of the open session.
pub open spec fn commit_of(pending: Option<PendingSession>, active: Option<ActiveSession>, now: i64) -> CommitPlan {
    CommitPlan {
        record: match pending {
            Some(p) => if lasted(p, now) { Some(p) } else { None },
            None => None,
        },
        close: match active {
            Some(a) => Some(a.db_id),
            None => None,
        },
        now: now,
    }
}

/// Law: a pending window is written exactly when it has kept the focus for at least
/// `DEBOUNCE_SECS`, and then as it is; the open session is always closed.
pub proof fn lemma_debounce(p: PendingSession, a: Option<ActiveSession>, now: i64)
    ensures
        commit_of(Some(p), a, now).record == (if now - p.started >= DEBOUNCE_SECS { Some(p) } else { None }),
        commit_of(Some(p), a, now).close == (match a { Some(s) => Some(s.db_id), None => None }),
        commit_of(Some(p), a, now).now == now,
{
}

/// The daemon's state between ticks.
pub struct Tracker {
    pending: Option<PendingSession>,
    active: Option<ActiveSession>,
    idle: bool,
    last_focus: Option<(String, i64)>,
}

impl Tracker {
    /// The fields agree with one another (see `wf`).
    #[verifier::type_invariant]
    spec fn consistent(&self) -> bool {
        &&& !(self.pending is Some && self.active is Some)
        &&& self.idle ==> (self.pending is None && self.active is None && self.last_focus is None)
        &&& (self.pending matches Some(p) ==> (self.last_focus matches Some(k) && k.0@ == p.app_id@ && k.1 == p.pid))
        &&& (self.active matches Some(a) ==> (self.last_focus matches Some(k) && k.0@ == a.app_id@ && k.1 == a.pid))
    }

    /// The window waiting to be stored.
    pub closed spec fn pending_of(&self) -> Option<PendingSession> {
        self.pending
    }

    /// The stored session that is open.
    pub closed spec fn active_of(&self) -> Option<ActiveSession> {
        self.active
    }

    /// Whether the user is idle.
    pub closed spec fn idle_of(&self) -> bool {
        self.idle
    }

    /// The application id and process of the window seen last.
    pub closed spec fn focus_of(&self) -> Option<(Seq<char>, i64)> {
        match self.last_focus {
            Some(k) => Some((k.0@, k.1)),
            None => None,
        }
    }

    /// The state is consistent: never a pending window and an open session at once;
    /// nothing pending, open or remembered while idle; what is pending or open
    /// belongs to the window seen last.
    pub open spec fn wf(&self) -> bool {
        &&& !(self.pending_of() is Some && self.active_of() is Some)
        &&& self.idle_of() ==> (self.pending_of() is None && self.active_of() is None
            && self.focus_of() is None)
        &&& (self.pending_of() matches Some(p) ==> self.focus_of() == Some((p.app_id@, p.pid)))
        &&& (self.active_of() matches Some(a) ==> self.focus_of() == Some((a.app_id@, a.pid)))
    }

    /// The state as a whole: pending window, open session, idleness, last window.
    pub open spec fn state(&self) -> TrackerState {
        (self.pending_of(), self.active_of(), self.idle_of(), self.focus_of())
    }

    /// How long the pending window has had the focus at `now` is an `i64`.
    pub open spec fn can_end_at(&self, now: i64) -> bool {
        self.pending_of() matches Some(p) ==> i64::MIN <= now - p.started <= i64::MAX
    }

    /// The two states hold the same sessions, idleness and last window.
    pub open spec fn same_as(&self, other: &Tracker) -> bool {
        &&& self.pending_of() == other.pending_of()
        &&& self.active_of() == other.active_of()
        &&& self.idle_of() == other.idle_of()
        &&& self.focus_of() == other.focus_of()
    }

    /// Whether the pending window's time in focus at `now` can be computed.
    pub fn fits_at(&self, now: i64) -> (r: bool)
        ensures
            r == self.can_end_at(now),
    {
        match &self.pending {
            Some(p) => (now as i128 - p.started as i128) >= i64::MIN as i128 && (now as i128
                - p.started as i128) <= i64::MAX as i128,
            None => true,
        }
    }

    /// A daemon that has seen nothing yet.
    pub fn new() -> (r: Tracker)
        ensures
            r.wf(),
            r.pending_of() is None,
            r.active_of() is None,
            !r.idle_of(),
            r.focus_of() is None,
    {
        Tracker { pending: None, active: None, idle: false, last_focus: None }
    }

    /// Whether the user is idle.
    pub fn is_idle(&self) -> (r: bool)
        ensures
            r == self.idle_of(),
    {
        self.idle
    }

    /// The application of the open session, the one the dashboard shows.
    pub fn active_app(&self) -> (r: Option<String>)
        ensures
            match r {
                Some(a) => self.active_of() matches Some(s) && s.app_id == a,
                None => self.active_of() is None,
            },
    {
        match &self.active {
            Some(a) => Some(a.app_id.clone()),
            None => None,
        }
    }

    fn commit(&mut self, now: i64) -> (r: CommitPlan)
        requires
            old(self).can_end_at(now),
        ensures
            r == commit_of(old(self).pending_of(), old(self).active_of(), now),
            final(self).pending_of() is None,
            final(self).active_of() is None,
            final(self).idle_of() == old(self).idle_of(),
            final(self).focus_of() == old(self).focus_of(),
    {
        proof { use_type_invariant(&*self); }
        let mut pending: Option<PendingSession> = None;
        std::mem::swap(&mut pending, &mut self.pending);
        let mut active: Option<ActiveSession> = None;
        std::mem::swap(&mut active, &mut self.active);
        let record = match pending {
            Some(p) => if now - p.started >= DEBOUNCE_SECS { Some(p) } else { None },
            None => None,
        };
        let close = match active {
            Some(a) => Some(a.db_id),
            None => None,
        };
        CommitPlan { record, close, now }
    }

    /// Ends the periods at `now` (when the daemon stops): what to write.
    pub fn shutdown(&mut self, now: i64) -> (r: CommitPlan)
        requires
            old(self).can_end_at(now),
        ensures
            final(self).wf(),
            r == commit_of(old(self).pending_of(), old(self).active_of(), now),
            final(self).pending_of() is None,
            final(self).active_of() is None,
            final(self).idle_of() == old(self).idle_of(),
            final(self).focus_of() == old(self).focus_of(),
    {
        proof { use_type_invariant(&*self); }
        let plan = self.commit(now);
        proof { use_type_invariant(&*self); }
        plan
    }

    /// Takes the user's idle time at `now`. Going idle ends the periods and forgets
    /// the last window; coming back forgets everything pending or open.
    pub fn observe_idle(&mut self, idle_secs: u64, now: i64) -> (r: IdleStep)
        requires
            old(self).can_end_at(now),
        ensures
            final(self).wf(),
            final(self).idle_of() == (idle_secs >= IDLE_THRESHOLD_SECS),
            final(self).state() == idle_state(old(self).state(), idle_secs),
            (r matches IdleStep::Began(plan) ==> idle_plan(old(self).state(), idle_secs, now) == Some(plan)),
            (!(r is Began) ==> idle_plan(old(self).state(), idle_secs, now) is None),
            if idle_secs >= IDLE_THRESHOLD_SECS && !old(self).idle_of() {
                &&& r == IdleStep::Began(commit_of(old(self).pending_of(), old(self).active_of(), now))
                &&& final(self).pending_of() is None
                &&& final(self).active_of() is None
                &&& final(self).focus_of() is None
            } else if idle_secs < IDLE_THRESHOLD_SECS && old(self).idle_of() {
                &&& r == IdleStep::Ended
                &&& final(self).pending_of() is None
                &&& final(self).active_of() is None
                &&& final(self).focus_of() is None
            } else if idle_secs >= IDLE_THRESHOLD_SECS {
                r == IdleStep::StillIdle && final(self).same_as(old(self))
            } else {
                r == IdleStep::Active && final(self).same_as(old(self))
            },
    {
        proof { use_type_invariant(&*self); }
        let was_idle = self.idle;
        let now_idle = idle_secs >= IDLE_THRESHOLD_SECS;
        if now_idle && !was_idle {
            let plan = self.commit(now);
            self.last_focus = None;
            self.idle = true;
            proof { use_type_invariant(&*self); }
            return IdleStep::Began(plan);
        }
        if !now_idle && was_idle {
            self.pending = None;
            self.active = None;
            self.last_focus = None;
            self.idle = false;
            proof { use_type_invariant(&*self); }
            return IdleStep::Ended;
        }
        if now_idle {
            IdleStep::StillIdle
        } else {
            IdleStep::Active
        }
    }

    /// Takes the focused window seen at `now`. A window other than the last one ends
    /// the current periods and starts a pending one; the same window changes nothing.
    pub fn observe_focus(&mut self, app_id: String, pid: i64, path: String, now: i64) -> (r: Option<CommitPlan>)
        requires
            !old(self).idle_of(),
            old(self).can_end_at(now),
        ensures
            final(self).wf(),
            !final(self).idle_of(),
            final(self).state() == focus_state(old(self).state(), app_id, pid, path, now),
            r == focus_plan(old(self).state(), app_id, pid, now),
            if old(self).focus_of() == Some((app_id@, pid)) {
                r is None && final(self).same_as(old(self))
            } else {
                &&& r == Some(commit_of(old(self).pending_of(), old(self).active_of(), now))
                &&& final(self).pending_of() == Some(PendingSession { app_id: app_id, pid: pid, path: path, started: now })
                &&& final(self).active_of() is None
                &&& final(self).focus_of() == Some((app_id@, pid))
            },
    {
        proof { use_type_invariant(&*self); }
        let same = match &self.last_focus {
            Some(k) => k.0 == app_id && k.1 == pid,
            None => false,
        };
        if same {
            return None;
        }
        let plan = self.commit(now);
        self.last_focus = Some((app_id.clone(), pid));
        self.pending = Some(PendingSession { app_id, pid, path, started: now });
        proof { use_type_invariant(&*self); }
        Some(plan)
    }

    /// The pending window, if it has kept the focus long enough by `now` to be stored.
    pub fn due_session(&self, now: i64) -> (r: Option<PendingSession>)
        requires
            self.can_end_at(now),
        ensures
            r == due_of(self.state(), now),
    {
        match &self.pending {
            Some(p) => if now - p.started >= DEBOUNCE_SECS { Some(p.duplicate()) } else { None },
            None => None,
        }
    }

    /// Counts the second that just passed for the application of the open session;
    /// without one nothing is counted.
    pub fn credit_second(&self, seconds: &mut SecondsMap)
        requires
            self.active_of() matches Some(a) ==> (old(seconds)@.contains_key(a.app_id@) ==> old(seconds)@[a.app_id@]
                < i64::MAX),
        ensures
            match self.active_of() {
                Some(a) => final(seconds)@ == old(seconds)@.insert(
                    a.app_id@,
                    if old(seconds)@.contains_key(a.app_id@) { (old(seconds)@[a.app_id@] + 1) as i64 } else { 1 },
                ),
                None => final(seconds)@ == old(seconds)@,
            },
    {
        match &self.active {
            Some(a) => seconds.add_second(a.app_id.as_str()),
            None => {},
        }
    }

    /// The pending window has been stored under `db_id`: it becomes the open session.
    pub fn session_started(&mut self, db_id: i64)
        requires
            old(self).pending_of() is Some,
        ensures
            final(self).wf(),
            final(self).pending_of() is None,
            final(self).active_of() == Some(ActiveSession {
                app_id: old(self).pending_of()->0.app_id,
                pid: old(self).pending_of()->0.pid,
                path: old(self).pending_of()->0.path,
                started: old(self).pending_of()->0.started,
                db_id: db_id,
            }),
            final(self).state() == started_state(old(self).state(), db_id),
            final(self).idle_of() == old(self).idle_of(),
            final(self).focus_of() == old(self).focus_of(),
    {
        proof { use_type_invariant(&*self); }
        let mut pending: Option<PendingSession> = None;
        std::mem::swap(&mut pending, &mut self.pending);
        match pending {
            Some(p) => {
                self.active = Some(ActiveSession { app_id: p.app_id, pid: p.pid, path: p.path, started: p.started, db_id });
            },
            None => {},
        }
        proof { use_type_invariant(&*self); }
    }
}


/// The daemon's state as a whole: the pending window, the open session, whether the
/// user is idle, and the window seen last (application id and process).
pub type TrackerState = (Option<PendingSession>, Option<ActiveSession>, bool, Option<(Seq<char>, i64)>);

/// The state of a daemon that has seen nothing yet.
pub open spec fn initial_state() -> TrackerState {
    (None, None, false, None)
}

/// The state after the idle time `idle_secs` is read: going idle or coming back forgets
/// the pending window, the open session and the last window.
pub open spec fn idle_state(s: TrackerState, idle_secs: u64) -> TrackerState {
    let now_idle = idle_secs >= IDLE_THRESHOLD_SECS;
    if now_idle != s.2 { (None, None, now_idle, None) } else { s }
}

/// What reading the idle time `idle_secs` at `now` writes: the periods end when the user
/// goes idle.
pub open spec fn idle_plan(s: TrackerState, idle_secs: u64, now: i64) -> Option<CommitPlan> {
    if idle_secs >= IDLE_THRESHOLD_SECS && !s.2 { Some(commit_of(s.0, s.1, now)) } else { None }
}

/// The state after the focused window (`app_id`, `pid`, `path`) is seen at `now`: a
/// window other than the last one becomes the pending one.
pub open spec fn focus_state(s: TrackerState, app_id: String, pid: i64, path: String, now: i64) -> TrackerState {
    if s.3 == Some((app_id@, pid)) {
        s
    } else {
        (Some(PendingSession { app_id: app_id, pid: pid, path: path, started: now }), None, s.2, Some((app_id@, pid)))
    }
}

/// What seeing the focused window (`app_id`, `pid`) at `now` writes: the periods end
/// when it is not the last window.
pub open spec fn focus_plan(s: TrackerState, app_id: String, pid: i64, now: i64) -> Option<CommitPlan> {
    if s.3 == Some((app_id@, pid)) { None } else { Some(commit_of(s.0, s.1, now)) }
}

/// The pending window to store at `now`, if it has kept the focus long enough.
pub open spec fn due_of(s: TrackerState, now: i64) -> Option<PendingSession> {
    match s.0 {
        Some(p) => if lasted(p, now) { Some(p) } else { None },
        None => None,
    }
}

/// The state after the pending window was stored under `db_id`: it is the open session.
pub open spec fn started_state(s: TrackerState, db_id: i64) -> TrackerState {
    match s.0 {
        Some(p) => (
            None,
            Some(ActiveSession { app_id: p.app_id, pid: p.pid, path: p.path, started: p.started, db_id: db_id }),
            s.2,
            s.3,
        ),
        None => s,
    }
}

/// One second of the daemon's loop, as it is observed: the time, the idle time, the
/// focused window (application id, process, path) when one was found, and the id the
/// database gave the session stored in this second, when it stored one.
pub type Tick = (i64, u64, Option<(String, i64, String)>, Option<i64>);

/// The state after the first half of a tick: the idle time is read, and unless the user
/// is idle, the focused window is taken.
pub open spec fn observed_state(s: TrackerState, t: Tick) -> TrackerState {
    let s1 = idle_state(s, t.1);
    if s1.2 {
        s1
    } else {
        match t.2 {
            Some(f) => focus_state(s1, f.0, f.1, f.2, t.0),
            None => s1,
        }
    }
}

/// The state after a whole tick: when the pending window is due and the database
/// stored it, it becomes the open session.
pub open spec fn tick_state(s: TrackerState, t: Tick) -> TrackerState {
    let s2 = observed_state(s, t);
    if !s2.2 && due_of(s2, t.0) is Some && t.3 is Some {
        started_state(s2, t.3->0)
    } else {
        s2
    }
}

/// The state after the ticks of a run, from a daemon that has seen nothing.
pub open spec fn run_state(ticks: Seq<Tick>) -> TrackerState
    decreases ticks.len(),
{
    if ticks.len() == 0 {
        initial_state()
    } else {
        tick_state(run_state(ticks.drop_last()), ticks.last())
    }
}

/// The clock never goes back during the run.
pub open spec fn clock_steady(ticks: Seq<Tick>) -> bool {
    forall|i: int, j: int| 0 <= i <= j < ticks.len() ==> ticks[i].0 <= ticks[j].0
}

/// Over any run of the daemon's loop, whatever its clock does: after a tick whose idle
/// time is at least `IDLE_THRESHOLD_SECS` the user is idle and no session is pending
/// or open; and while the idle times stay that long, none is. Nothing is pending or
/// open while the user is idle.
pub proof fn lemma_idle_run(ticks: Seq<Tick>)
    ensures
        ticks.len() > 0 && ticks.last().1 >= IDLE_THRESHOLD_SECS ==> run_state(ticks).0 is None
            && run_state(ticks).1 is None && run_state(ticks).2,
        run_state(ticks).2 ==> run_state(ticks).0 is None && run_state(ticks).1 is None,
    decreases ticks.len(),
{
    if ticks.len() > 0 {
        lemma_idle_run(ticks.drop_last());
    }
}

/// What the writes of ending the periods at `now` in state `s` store: the pending
/// window if it has lasted `DEBOUNCE_SECS`, and the end of the open session, which has
/// lasted that long too.
pub open spec fn commit_lasts(s: TrackerState, now: i64) -> bool {
    &&& (commit_of(s.0, s.1, now).record matches Some(p) ==> now - p.started >= DEBOUNCE_SECS)
    &&& (s.1 matches Some(a) ==> commit_of(s.0, s.1, now).close == Some(a.db_id) && now - a.started
        >= DEBOUNCE_SECS)
}

/// Over a run of the daemon's loop with a clock that never goes back, an open session
/// has been stored only after its window kept the focus `DEBOUNCE_SECS`, so every
/// session that is written at a later `now`, whether the focus moves (after the idle
/// time `idle_secs` is read), the user goes idle or the daemon stops, lasts at least
/// that long.
pub proof fn lemma_run(ticks: Seq<Tick>, now: i64, idle_secs: u64)
    requires
        clock_steady(ticks),
        ticks.len() > 0 ==> ticks.last().0 <= now,
    ensures
        run_state(ticks).1 matches Some(a) ==> ticks.len() > 0 && ticks.last().0 - a.started >= DEBOUNCE_SECS,
        commit_lasts(run_state(ticks), now),
        commit_lasts(idle_state(run_state(ticks), idle_secs), now),
    decreases ticks.len(),
{
    if ticks.len() > 0 {
        let rest = ticks.drop_last();
        let t = ticks.last();
        assert(clock_steady(rest)) by {
            assert forall|i: int, j: int| 0 <= i <= j < rest.len() implies rest[i].0 <= rest[j].0 by {
                assert(rest[i] == ticks[i] && rest[j] == ticks[j]);
            }
        }
        if rest.len() > 0 {
            assert(rest.last() == ticks[rest.len() - 1]);
        }
        lemma_run(rest, t.0, t.1);
    }
}

/// The display name to use for a session that starts, and whether it must be stored:
/// a non-empty name stored before is kept; otherwise the name is resolved from the
/// desktop entries, the path and the id, and stored.
pub fn session_display_name(app_id: &str, path: &str, stored: Option<String>, desktop: &DesktopDB) -> (r: (String, bool))
    ensures
        match stored {
            Some(n) => if n@.len() > 0 {
                r.0 == n && !r.1
            } else {
                r.0@ == resolved_name(app_id@, path@, desktop.names(), Map::empty()) && r.1
            },
            None => r.0@ == resolved_name(app_id@, path@, desktop.names(), Map::empty()) && r.1,
        },
{
    match stored {
        Some(n) => {
            if n.as_str().unicode_len() > 0 {
                return (n, false);
            }
        },
        None => {},
    }
    let empty = NameMap::new();
    (resolve(app_id, path, desktop, &empty), true)
}

} // verus!
