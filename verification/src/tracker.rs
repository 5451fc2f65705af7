//! The tracker facade: lifecycle, the per-poll pipeline step, and the
//! queue of closed sessions pending delivery.
//!
//! One poll runs the sample through the classifier, applies the resulting
//! transition to the open session, and then applies the idle-abandon policy:
//! idle persisting past the abandon threshold closes the session at the
//! moment idle began, and no session reopens before a fresh focus identity
//! establishes itself. The application drives the loop on its cadence and
//! delivers drained sessions to the registered collaborator.

use vstd::prelude::*;
use crate::classify::{all_below, classify_step, pending_streak, reseed_step, Classifier, Transition};
use crate::sample::FocusSample;
use crate::session::{
    closed_at, idle_applied, opened, session_end, wf_closed, wf_open, ActivitySession,
    OpenSession,
};

verus! {

/// Lifecycle misuse, reported to the caller with the state unchanged.
#[derive(Clone, Copy, Debug, PartialEq, Eq, Structural)]
pub enum TrackerError {
    AlreadyRunning,
    NotRunning,
}

/// The session pipeline: the classifier, the open session, and the frontier
/// time that no recorded interval extends past.
pub struct Pipeline {
    pub abandon_threshold_ms: u64,
    pub classifier: Classifier,
    pub open: Option<OpenSession>,
    pub frontier: u64,
}

/// Invariant of the pipeline: the open session, if any, is well formed and
/// does not begin before the frontier.
pub open spec fn pipeline_wf(p: Pipeline) -> bool {
    match p.open {
        Option::Some(o) => wf_open(o) && p.frontier <= o.started_at,
        Option::None => true,
    }
}

/// Invariant of the recorded history against a frontier: every session is
/// closed and well formed, ends no later than the frontier, and the
/// sessions' `[started_at, ended_at)` intervals are chronologically ordered
/// and pairwise disjoint.
pub open spec fn history_wf(h: Seq<ActivitySession>, frontier: u64) -> bool {
    &&& forall|i: int|
        0 <= i < h.len() ==> wf_closed(#[trigger] h[i]) && session_end(h[i]) <= frontier
    &&& forall|i: int, j: int|
        #![trigger h[i], h[j]]
        0 <= i < j < h.len() ==> session_end(h[i]) <= h[j].started_at
}

/// The pipeline with only its classifier replaced.
pub open spec fn with_classifier(p: Pipeline, c: Classifier) -> Pipeline {
    Pipeline {
        abandon_threshold_ms: p.abandon_threshold_ms,
        classifier: c,
        open: p.open,
        frontier: p.frontier,
    }
}

/// The effect of one classified transition on the pipeline, paired with the
/// session it closes, if any.
pub open spec fn apply_transition(p: Pipeline, s: FocusSample) -> (Pipeline, Option<
    ActivitySession,
>) {
    let c2 = classify_step(p.classifier, s).0;
    match classify_step(p.classifier, s).1 {
        Transition::NoChange => (with_classifier(p, c2), Option::None),
        Transition::FocusChanged { app_id, title, at } => match p.open {
            Option::Some(o) => {
                let sess = closed_at(o, at);
                (
                    Pipeline {
                        abandon_threshold_ms: p.abandon_threshold_ms,
                        classifier: c2,
                        open: Option::Some(opened(app_id, title, session_end(sess))),
                        frontier: session_end(sess),
                    },
                    Option::Some(sess),
                )
            },
            Option::None => {
                let st = if at > p.frontier {
                    at
                } else {
                    p.frontier
                };
                (
                    Pipeline {
                        abandon_threshold_ms: p.abandon_threshold_ms,
                        classifier: c2,
                        open: Option::Some(opened(app_id, title, st)),
                        frontier: p.frontier,
                    },
                    Option::None,
                )
            },
        },
        Transition::WentIdle { .. } => (with_classifier(p, c2), Option::None),
        Transition::ReturnedFromIdle { since, until } => match p.open {
            Option::Some(o) => (
                Pipeline {
                    abandon_threshold_ms: p.abandon_threshold_ms,
                    classifier: c2,
                    open: Option::Some(idle_applied(o, since, until)),
                    frontier: p.frontier,
                },
                Option::None,
            ),
            Option::None => (with_classifier(p, reseed_step(c2, s)), Option::None),
        },
    }
}

/// One full poll step: the transition is applied, and then idle persisting
/// past the abandon threshold closes the session at the moment idle began.
pub open spec fn pipeline_step(p: Pipeline, s: FocusSample) -> (Pipeline, Option<
    ActivitySession,
>) {
    let mid = apply_transition(p, s).0;
    let emitted = apply_transition(p, s).1;
    if mid.open is Some && mid.classifier.idle_since is Some && s.idle_ms
        >= p.abandon_threshold_ms {
        let sess = closed_at(mid.open->0, mid.classifier.idle_since->0);
        (
            Pipeline {
                abandon_threshold_ms: mid.abandon_threshold_ms,
                classifier: mid.classifier,
                open: Option::None,
                frontier: session_end(sess),
            },
            Option::Some(sess),
        )
    } else {
        (mid, emitted)
    }
}

/// The history after a step: unchanged, or with the emitted session at the
/// end.
pub open spec fn push_emitted(h: Seq<ActivitySession>, e: Option<ActivitySession>) -> Seq<
    ActivitySession,
> {
    match e {
        Option::Some(sess) => h.push(sess),
        Option::None => h,
    }
}

/// A history stays well formed when the frontier moves forward.
proof fn lemma_history_frontier_mono(h: Seq<ActivitySession>, f: u64, f2: u64)
    requires
        history_wf(h, f),
        f <= f2,
    ensures
        history_wf(h, f2),
{
}

/// Appending a well-formed session that begins at or after the old frontier
/// keeps the history well formed against any frontier at or past its end.
proof fn lemma_history_push(h: Seq<ActivitySession>, f: u64, sess: ActivitySession, f2: u64)
    requires
        history_wf(h, f),
        wf_closed(sess),
        f <= sess.started_at,
        session_end(sess) <= f2,
    ensures
        history_wf(h.push(sess), f2),
{
    let h2 = h.push(sess);
    assert forall|i: int| 0 <= i < h2.len() implies wf_closed(#[trigger] h2[i]) && session_end(
        h2[i],
    ) <= f2 by {
        if i < h.len() {
            assert(h2[i] == h[i]);
            assert(session_end(h[i]) <= f);
        } else {
            assert(h2[i] == sess);
            assert(session_end(sess) <= f2);
        }
    }
    assert forall|i: int, j: int| #![trigger h2[i], h2[j]] 0 <= i < j < h2.len() implies
        session_end(h2[i]) <= h2[j].started_at by {
        if j < h.len() {
            assert(h2[i] == h[i] && h2[j] == h[j]);
        } else {
            assert(h2[j] == sess);
            assert(h2[i] == h[i]);
            assert(session_end(h[i]) <= f);
        }
    }
}

/// One poll step preserves the pipeline and history invariants, never moves
/// the frontier backwards, and keeps the configuration.
pub proof fn lemma_step_preserves_wf(p: Pipeline, s: FocusSample, h: Seq<ActivitySession>)
    requires
        pipeline_wf(p),
        history_wf(h, p.frontier),
    ensures
        pipeline_wf(pipeline_step(p, s).0),
        pipeline_step(p, s).0.frontier >= p.frontier,
        pipeline_step(p, s).0.abandon_threshold_ms == p.abandon_threshold_ms,
        history_wf(push_emitted(h, pipeline_step(p, s).1), pipeline_step(p, s).0.frontier),
{
    let mid = apply_transition(p, s).0;
    let mid_emit = apply_transition(p, s).1;
    match classify_step(p.classifier, s).1 {
        Transition::NoChange => {},
        Transition::FocusChanged { app_id, title, at } => {
            match p.open {
                Option::Some(o) => {
                    let sess = closed_at(o, at);
                    assert(wf_closed(sess));
                    assert(p.frontier <= sess.started_at);
                    assert(session_end(sess) >= o.idle_floor);
                    assert(session_end(sess) >= sess.started_at);
                    lemma_history_push(h, p.frontier, sess, session_end(sess));
                },
                Option::None => {},
            }
        },
        Transition::WentIdle { .. } => {},
        Transition::ReturnedFromIdle { since, until } => {},
    }
    assert(pipeline_wf(mid));
    assert(mid.frontier >= p.frontier);
    assert(history_wf(push_emitted(h, mid_emit), mid.frontier)) by {
        if mid_emit is None {
            lemma_history_frontier_mono(h, p.frontier, mid.frontier);
        }
    }
    if mid.open is Some && mid.classifier.idle_since is Some && s.idle_ms
        >= p.abandon_threshold_ms {
        let o = mid.open->0;
        let sess = closed_at(o, mid.classifier.idle_since->0);
        assert(mid_emit is None);
        assert(wf_closed(sess));
        assert(mid.frontier <= sess.started_at);
        lemma_history_push(h, mid.frontier, sess, session_end(sess));
        lemma_history_frontier_mono(h, p.frontier, mid.frontier);
    }
}

/// Timeline law: in a well-formed tracker the recorded sessions are
/// chronologically ordered and their `[started_at, ended_at)` intervals are
/// pairwise disjoint, and every one of them keeps its accumulated idle time
/// within its wall-clock span.
pub proof fn lemma_history_ordered(t: Tracker, i: int, j: int)
    requires
        tracker_wf(t),
        0 <= i < j < t.closed@.len(),
    ensures
        wf_closed(t.closed@[i]),
        wf_closed(t.closed@[j]),
        session_end(t.closed@[i]) <= t.closed@[j].started_at,
{
}

/// Coverage law: a confirmed focus change that closes the open session
/// opens the successor exactly at the closed session's end, so the timeline
/// has no gap there; the emitted record is the closed form of the session
/// that was open. Gaps can arise only from idle abandonment.
pub proof fn lemma_focus_change_contiguous(p: Pipeline, s: FocusSample)
    requires
        pipeline_wf(p),
        p.open is Some,
        classify_step(p.classifier, s).1 is FocusChanged,
    ensures
        pipeline_step(p, s).1 is Some,
        pipeline_step(p, s).0.open is Some,
        pipeline_step(p, s).0.open->0.started_at == session_end(pipeline_step(p, s).1->0),
        pipeline_step(p, s).1->0.app_id == p.open->0.app_id,
        pipeline_step(p, s).1->0.started_at == p.open->0.started_at,
{
}

/// Idle-accounting law: while the session stays open across a poll, its
/// start stands and its accumulated idle time never decreases.
pub proof fn lemma_idle_monotone(p: Pipeline, s: FocusSample)
    requires
        pipeline_wf(p),
        p.open is Some,
        pipeline_step(p, s).1 is None,
    ensures
        pipeline_step(p, s).0.open is Some,
        pipeline_step(p, s).0.open->0.started_at == p.open->0.started_at,
        pipeline_step(p, s).0.open->0.app_id == p.open->0.app_id,
        pipeline_step(p, s).0.open->0.total_idle_ms >= p.open->0.total_idle_ms,
{
}

/// A session is closed only for cause: a poll whose sample neither confirms
/// a focus change nor reaches the abandon threshold emits nothing.
pub proof fn lemma_no_close_without_cause(p: Pipeline, s: FocusSample)
    requires
        !(classify_step(p.classifier, s).1 is FocusChanged),
        s.idle_ms < p.abandon_threshold_ms,
    ensures
        pipeline_step(p, s).1 is None,
{
}

/// Abandonment law: when idle persists past the abandon threshold, the
/// open session is closed at the moment idle began (never before idle time
/// already accounted to the session), and no session remains open.
pub proof fn lemma_abandon_closes_at_idle_onset(p: Pipeline, s: FocusSample)
    requires
        pipeline_wf(p),
        p.open is Some,
        p.classifier.idle_since is Some,
        s.idle_ms >= p.classifier.idle_threshold_ms,
        s.idle_ms >= p.abandon_threshold_ms,
    ensures
        pipeline_step(p, s).1 is Some,
        pipeline_step(p, s).0.open is None,
        session_end(pipeline_step(p, s).1->0) == (if p.classifier.idle_since->0
            > p.open->0.idle_floor {
            p.classifier.idle_since->0
        } else {
            p.open->0.idle_floor
        }),
        p.open->0.idle_floor <= p.classifier.idle_since->0 ==> session_end(
            pipeline_step(p, s).1->0,
        ) == p.classifier.idle_since->0,
{
}

/// The pipeline after a whole run of samples.
pub open spec fn pipeline_run(p: Pipeline, samples: Seq<FocusSample>) -> Pipeline
    decreases samples.len(),
{
    if samples.len() == 0 {
        p
    } else {
        pipeline_run(pipeline_step(p, samples[0]).0, samples.drop_first())
    }
}

/// Whether any step of a run closes a session.
pub open spec fn pipeline_emits(p: Pipeline, samples: Seq<FocusSample>) -> bool
    decreases samples.len(),
{
    if samples.len() == 0 {
        false
    } else {
        pipeline_step(p, samples[0]).1 is Some || pipeline_emits(
            pipeline_step(p, samples[0]).0,
            samples.drop_first(),
        )
    }
}

/// Debounce law, at the session level: a focus flicker lasting fewer polls
/// than the debounce count closes nothing and leaves the open session
/// exactly as it was. The samples stay below the idle threshold, so the
/// classifier never enters idle state and abandonment cannot fire either.
pub proof fn lemma_flicker_never_closes(p: Pipeline, samples: Seq<FocusSample>)
    requires
        p.classifier.idle_since is None,
        all_below(samples, p.classifier.idle_threshold_ms),
        pending_streak(p.classifier) + samples.len()
            < p.classifier.debounce_count,
    ensures
        !pipeline_emits(p, samples),
        pipeline_run(p, samples).open == p.open,
        pipeline_run(p, samples).frontier == p.frontier,
        pipeline_run(p, samples).classifier.focus == p.classifier.focus,
        pipeline_run(p, samples).classifier.idle_since is None,
    decreases samples.len(),
{
    if samples.len() > 0 {
        let s = samples[0];
        assert(s.idle_ms < p.classifier.idle_threshold_ms);
        let c2 = classify_step(p.classifier, s).0;
        assert(classify_step(p.classifier, s).1 is NoChange);
        assert(pending_streak(c2) <= pending_streak(
            p.classifier,
        ) + 1);
        let next = pipeline_step(p, s).0;
        assert(pipeline_step(p, s).1 is None);
        assert(next.open == p.open && next.frontier == p.frontier && next.classifier == c2);
        let rest = samples.drop_first();
        assert(all_below(rest, c2.idle_threshold_ms)) by {
            assert forall|i: int| 0 <= i < rest.len() implies #[trigger] rest[i].idle_ms
                < c2.idle_threshold_ms by {
                assert(rest[i] == samples[i + 1]);
            }
        }
        lemma_flicker_never_closes(next, rest);
    }
}

/// The tracker: owns the pipeline state, the queue of closed sessions
/// pending delivery, and the snapshot of the last polled sample. Only the
/// polling task mutates it; consumers read snapshots through the facade.
pub struct Tracker {
    pub running: bool,
    pub poll_interval_ms: u64,
    pub pipeline: Pipeline,
    pub closed: Vec<ActivitySession>,
    pub last_sample: Option<FocusSample>,
}

/// Invariant of the whole tracker: pipeline and recorded history agree on
/// the frontier. While tracking is stopped there is no open session.
pub open spec fn tracker_wf(t: Tracker) -> bool {
    &&& pipeline_wf(t.pipeline)
    &&& history_wf(t.closed@, t.pipeline.frontier)
    &&& !t.running ==> t.pipeline.open is None
}

impl Tracker {
    /// A stopped tracker with an empty history.
    pub fn new() -> (t: Tracker)
        ensures
            !t.running,
            t.pipeline.open is None,
            t.pipeline.frontier == 0,
            t.closed@ == Seq::<ActivitySession>::empty(),
            t.last_sample is None,
            tracker_wf(t),
    {
        Tracker {
            running: false,
            poll_interval_ms: 0,
            pipeline: Pipeline {
                abandon_threshold_ms: 0,
                classifier: Classifier::new(0, 0),
                open: Option::None,
                frontier: 0,
            },
            closed: Vec::new(),
            last_sample: Option::None,
        }
    }

    /// Begin tracking with the given configuration. Fails with
    /// `AlreadyRunning`, state untouched, when called while active. The
    /// classifier starts fresh; sessions already closed but not yet drained
    /// stay queued, and the frontier carries over so the new timeline never
    /// reaches back into the recorded one.
    pub fn start(
        &mut self,
        poll_interval_ms: u64,
        idle_threshold_ms: u64,
        abandon_threshold_ms: u64,
        debounce_count: u64,
    ) -> (r: Result<(), TrackerError>)
        requires
            tracker_wf(*old(self)),
        ensures
            tracker_wf(*final(self)),
            old(self).running ==> r == Result::<(), TrackerError>::Err(
                TrackerError::AlreadyRunning,
            ) && *final(self) == *old(self),
            !old(self).running ==> {
                &&& r == Result::<(), TrackerError>::Ok(())
                &&& final(self).running
                &&& final(self).poll_interval_ms == poll_interval_ms
                &&& final(self).pipeline.abandon_threshold_ms == abandon_threshold_ms
                &&& final(self).pipeline.classifier == (Classifier {
                    idle_threshold_ms,
                    debounce_count,
                    idle_since: Option::None,
                    focus: Option::None,
                    pending: Option::None,
                })
                &&& final(self).pipeline.open is None
                &&& final(self).pipeline.frontier == old(self).pipeline.frontier
                &&& final(self).closed == old(self).closed
                &&& final(self).last_sample is None
            },
    {
        if self.running {
            return Result::Err(TrackerError::AlreadyRunning);
        }
        self.running = true;
        self.poll_interval_ms = poll_interval_ms;
        self.pipeline.abandon_threshold_ms = abandon_threshold_ms;
        self.pipeline.classifier = Classifier::new(idle_threshold_ms, debounce_count);
        self.pipeline.open = Option::None;
        self.last_sample = Option::None;
        Result::Ok(())
    }

    /// Feed one sample through the pipeline. Fails with `NotRunning`, state
    /// untouched, when the tracker is stopped; otherwise the state advances
    /// exactly as `pipeline_step` describes, a closed session, if any, joins
    /// the delivery queue, and the reported transition is returned.
    pub fn poll(&mut self, sample: FocusSample) -> (r: Result<Transition, TrackerError>)
        requires
            tracker_wf(*old(self)),
        ensures
            tracker_wf(*final(self)),
            !old(self).running ==> r == Result::<Transition, TrackerError>::Err(
                TrackerError::NotRunning,
            ) && *final(self) == *old(self),
            old(self).running ==> {
                &&& final(self).running
                &&& final(self).poll_interval_ms == old(self).poll_interval_ms
                &&& final(self).pipeline == pipeline_step(old(self).pipeline, sample).0
                &&& final(self).closed@ == push_emitted(
                    old(self).closed@,
                    pipeline_step(old(self).pipeline, sample).1,
                )
                &&& final(self).last_sample == Option::Some(sample)
                &&& r matches Result::Ok(t) && t == classify_step(
                    old(self).pipeline.classifier,
                    sample,
                ).1
            },
    {
        if !self.running {
            return Result::Err(TrackerError::NotRunning);
        }
        proof {
            lemma_step_preserves_wf(self.pipeline, sample, self.closed@);
        }
        let t = self.pipeline.classifier.classify(&sample);
        match &t {
            Transition::NoChange => {},
            Transition::FocusChanged { app_id, title, at } => {
                match self.pipeline.open.take() {
                    Option::Some(o) => {
                        let sess = o.close(*at);
                        let e = sess.ended_at.unwrap();
                        self.pipeline.open = Option::Some(
                            OpenSession::open(app_id.clone(), title.clone(), e),
                        );
                        self.pipeline.frontier = e;
                        self.closed.push(sess);
                    },
                    Option::None => {
                        let st = if *at > self.pipeline.frontier {
                            *at
                        } else {
                            self.pipeline.frontier
                        };
                        self.pipeline.open = Option::Some(
                            OpenSession::open(app_id.clone(), title.clone(), st),
                        );
                    },
                }
            },
            Transition::WentIdle { .. } => {},
            Transition::ReturnedFromIdle { since, until } => {
                let took = self.pipeline.open.take();
                match took {
                    Option::Some(mut o) => {
                        o.add_idle(*since, *until);
                        self.pipeline.open = Option::Some(o);
                    },
                    Option::None => {
                        self.pipeline.classifier.reseed(&sample);
                    },
                }
            },
        }
        if self.pipeline.open.is_some() && self.pipeline.classifier.idle_since.is_some()
            && sample.idle_ms >= self.pipeline.abandon_threshold_ms {
            let o = self.pipeline.open.take().unwrap();
            let since = self.pipeline.classifier.idle_since.unwrap();
            let sess = o.close(since);
            self.pipeline.frontier = sess.ended_at.unwrap();
            self.closed.push(sess);
        }
        self.last_sample = Option::Some(sample);
        Result::Ok(t)
    }

    /// Halt tracking, closing and returning the open session, if any, with
    /// the stop time as its end. Calling `stop` on a stopped tracker is
    /// reported as `NotRunning` and alters nothing, the queue of already
    /// closed sessions included.
    pub fn stop(&mut self, at: u64) -> (r: Result<Option<ActivitySession>, TrackerError>)
        requires
            tracker_wf(*old(self)),
        ensures
            tracker_wf(*final(self)),
            !old(self).running ==> r == Result::<Option<ActivitySession>, TrackerError>::Err(
                TrackerError::NotRunning,
            ) && *final(self) == *old(self),
            old(self).running ==> {
                &&& !final(self).running
                &&& final(self).poll_interval_ms == old(self).poll_interval_ms
                &&& final(self).pipeline.abandon_threshold_ms == old(
                    self,
                ).pipeline.abandon_threshold_ms
                &&& final(self).pipeline.classifier == old(self).pipeline.classifier
                &&& final(self).pipeline.open is None
                &&& final(self).closed == old(self).closed
                &&& final(self).last_sample == old(self).last_sample
                &&& match old(self).pipeline.open {
                    Option::Some(o) => r == Result::<Option<ActivitySession>, TrackerError>::Ok(
                        Option::Some(closed_at(o, at)),
                    ) && final(self).pipeline.frontier == session_end(closed_at(o, at)),
                    Option::None => r == Result::<Option<ActivitySession>, TrackerError>::Ok(
                        Option::None,
                    ) && final(self).pipeline.frontier == old(self).pipeline.frontier,
                }
            },
    {
        if !self.running {
            return Result::Err(TrackerError::NotRunning);
        }
        self.running = false;
        match self.pipeline.open.take() {
            Option::Some(o) => {
                let sess = o.close(at);
                proof {
                    lemma_history_frontier_mono(
                        self.closed@,
                        self.pipeline.frontier,
                        session_end(sess),
                    );
                }
                self.pipeline.frontier = sess.ended_at.unwrap();
                Result::Ok(Option::Some(sess))
            },
            Option::None => Result::Ok(Option::None),
        }
    }

    /// Read-only snapshot of the latest polled sample.
    pub fn current_focus(&self) -> (r: Option<&FocusSample>)
        ensures
            match self.last_sample {
                Option::Some(s) => r matches Option::Some(x) && *x == s,
                Option::None => r is None,
            },
    {
        self.last_sample.as_ref()
    }

    /// Hand over the closed sessions pending delivery, in closing order,
    /// emptying the queue. Together with an application loop that forwards
    /// each drained record to the registered collaborator, this gives
    /// at-least-once delivery per closed session.
    pub fn drain_closed(&mut self) -> (r: Vec<ActivitySession>)
        ensures
            r@ == old(self).closed@,
            final(self).closed@ == Seq::<ActivitySession>::empty(),
            final(self).running == old(self).running,
            final(self).poll_interval_ms == old(self).poll_interval_ms,
            final(self).pipeline == old(self).pipeline,
            final(self).last_sample == old(self).last_sample,
            tracker_wf(*old(self)) ==> tracker_wf(*final(self)),
    {
        let mut out: Vec<ActivitySession> = Vec::new();
        core::mem::swap(&mut out, &mut self.closed);
        out
    }
}

} // verus!
