//! Activity sessions and the operations that grow and close them.
//!
//! An open session accumulates idle time as idle/return pairs are applied;
//! closing stamps the end time. The well-formedness predicates here are the
//! session invariant: once closed, the end is no earlier than the start and
//! the accumulated idle time never exceeds the session's wall-clock span.

use vstd::prelude::*;

verus! {

/// A finished, contiguous interval during which one application held focus.
/// `ended_at` is `None` only while the record still stands for the open
/// session inside the tracker; every emitted session is closed.
pub struct ActivitySession {
    pub app_id: String,
    pub title: String,
    pub started_at: u64,
    pub ended_at: Option<u64>,
    pub total_idle_ms: u64,
}

/// The in-progress session. `idle_floor` is the time up to which idle has
/// been accounted: no later idle interval may begin before it, which keeps
/// the accumulated idle within the session's span.
pub struct OpenSession {
    pub app_id: String,
    pub title: String,
    pub started_at: u64,
    pub total_idle_ms: u64,
    pub idle_floor: u64,
}

/// Invariant of an open session: the idle floor never precedes the start,
/// and the idle accumulated so far fits below the floor.
pub open spec fn wf_open(o: OpenSession) -> bool {
    o.started_at <= o.idle_floor && o.total_idle_ms <= o.idle_floor - o.started_at
}

/// Invariant of a closed session: the end is set and no earlier than the
/// start, and the accumulated idle time fits within the wall-clock span.
pub open spec fn wf_closed(s: ActivitySession) -> bool {
    match s.ended_at {
        Option::Some(e) => s.started_at <= e && s.total_idle_ms <= e - s.started_at,
        Option::None => false,
    }
}

/// The end time of a closed session.
pub open spec fn session_end(s: ActivitySession) -> u64 {
    s.ended_at->0
}

/// A session freshly opened for an identity at a time: no idle accounted.
pub open spec fn opened(app_id: String, title: String, at: u64) -> OpenSession {
    OpenSession { app_id, title, started_at: at, total_idle_ms: 0, idle_floor: at }
}

/// The open session after one idle interval `[since, until)` is applied:
/// the interval is clipped to begin no earlier than the idle floor and to
/// end no earlier than it begins, its length is added, and the floor moves
/// to its end.
pub open spec fn idle_applied(o: OpenSession, since: u64, until: u64) -> OpenSession {
    let lo = if since > o.idle_floor {
        since
    } else {
        o.idle_floor
    };
    let hi = if until > lo {
        until
    } else {
        lo
    };
    OpenSession {
        app_id: o.app_id,
        title: o.title,
        started_at: o.started_at,
        total_idle_ms: (o.total_idle_ms + (hi - lo)) as u64,
        idle_floor: hi,
    }
}

/// The closed record of an open session: the end is the requested close
/// time, or the idle floor where that already lies later.
pub open spec fn closed_at(o: OpenSession, at: u64) -> ActivitySession {
    let e = if at > o.idle_floor {
        at
    } else {
        o.idle_floor
    };
    ActivitySession {
        app_id: o.app_id,
        title: o.title,
        started_at: o.started_at,
        ended_at: Option::Some(e),
        total_idle_ms: o.total_idle_ms,
    }
}

impl OpenSession {
    /// Open a session for an identity at a time.
    pub fn open(app_id: String, title: String, at: u64) -> (o: OpenSession)
        ensures
            o == opened(app_id, title, at),
            wf_open(o),
    {
        OpenSession { app_id, title, started_at: at, total_idle_ms: 0, idle_floor: at }
    }

    /// Add one idle interval `[since, until)` to the session. The total
    /// only grows, and the invariant is preserved.
    pub fn add_idle(&mut self, since: u64, until: u64)
        requires
            wf_open(*old(self)),
        ensures
            *final(self) == idle_applied(*old(self), since, until),
            wf_open(*final(self)),
            final(self).total_idle_ms >= old(self).total_idle_ms,
    {
        let lo = if since > self.idle_floor {
            since
        } else {
            self.idle_floor
        };
        let hi = if until > lo {
            until
        } else {
            lo
        };
        self.total_idle_ms = self.total_idle_ms + (hi - lo);
        self.idle_floor = hi;
    }

    /// Close the session at a time, yielding a well-formed closed record.
    pub fn close(self, at: u64) -> (s: ActivitySession)
        requires
            wf_open(self),
        ensures
            s == closed_at(self, at),
            wf_closed(s),
            session_end(s) >= self.idle_floor,
            session_end(s) >= at,
    {
        let e = if at > self.idle_floor {
            at
        } else {
            self.idle_floor
        };
        ActivitySession {
            app_id: self.app_id,
            title: self.title,
            started_at: self.started_at,
            ended_at: Option::Some(e),
            total_idle_ms: self.total_idle_ms,
        }
    }
}

/// Within-session idle accounting never outgrows the session: a closed
/// record of a well-formed open session keeps its accumulated idle time
/// inside the wall-clock span, whatever close time is requested.
pub proof fn lemma_idle_within_span(o: OpenSession, at: u64)
    requires
        wf_open(o),
    ensures
        wf_closed(closed_at(o, at)),
        closed_at(o, at).total_idle_ms <= session_end(closed_at(o, at)) - closed_at(
            o,
            at,
        ).started_at,
{
}

} // verus!
