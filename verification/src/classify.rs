//! Debouncing and idle classification.
//!
//! Each poll's sample is judged against the classifier's state: idle state is
//! evaluated first, so an idle transition wins over a simultaneous focus
//! change; a new focus identity must persist across `debounce_count`
//! consecutive polls before a `FocusChanged` transition is reported, which
//! suppresses momentary window-manager flicker.

use vstd::prelude::*;
use crate::sample::{FocusSample, FocusedWindow};

verus! {

/// The classifier's verdict on one sample.
pub enum Transition {
    /// Nothing confirmed by this sample.
    NoChange,
    /// A new focus identity persisted long enough; `at` is the time the
    /// identity was first seen, which is where the new session begins.
    FocusChanged { app_id: String, title: String, at: u64 },
    /// The idle reading crossed the idle threshold; `since` is the poll time
    /// at which the crossing was observed.
    WentIdle { since: u64 },
    /// The idle reading dropped back below the threshold; `until` is the end
    /// of the idle interval, backdated by the idle duration at return.
    ReturnedFromIdle { since: u64, until: u64 },
}

/// A focus identity that differs from the accepted one and is waiting to
/// persist across enough consecutive polls.
pub struct PendingFocus {
    pub app_id: String,
    pub title: String,
    pub first_seen_at: u64,
    pub streak: u64,
}

/// Debouncer and idle classifier state.
pub struct Classifier {
    pub idle_threshold_ms: u64,
    pub debounce_count: u64,
    /// When the tracker classified the user idle, the poll time of the
    /// crossing; `None` while the user counts as active.
    pub idle_since: Option<u64>,
    /// The focus identity most recently confirmed by a `FocusChanged`.
    pub focus: Option<FocusedWindow>,
    /// The candidate identity currently being debounced.
    pub pending: Option<PendingFocus>,
}

/// Whether a sample shows the accepted focus identity.
pub open spec fn matches_focus(c: Classifier, s: FocusSample) -> bool {
    match c.focus {
        Option::Some(f) => f.name@ == s.app_id@ && f.title@ == s.title@,
        Option::None => false,
    }
}

/// Whether a sample shows the candidate identity currently being debounced.
pub open spec fn matches_pending(c: Classifier, s: FocusSample) -> bool {
    match c.pending {
        Option::Some(p) => p.app_id@ == s.app_id@ && p.title@ == s.title@,
        Option::None => false,
    }
}

/// The end of an idle interval as seen from a returning sample: the poll
/// time backdated by the idle duration still reported at return.
pub open spec fn backdated_idle_end(s: FocusSample) -> u64 {
    if s.idle_ms <= s.sampled_at {
        (s.sampled_at - s.idle_ms) as u64
    } else {
        0
    }
}

/// The candidate after a sample that differs from the accepted focus: the
/// current candidate with its streak lengthened when the sample repeats it,
/// or the sample as a fresh candidate otherwise.
pub open spec fn bumped_pending(c: Classifier, s: FocusSample) -> PendingFocus {
    if matches_pending(c, s) {
        let p = c.pending->0;
        PendingFocus {
            app_id: p.app_id,
            title: p.title,
            first_seen_at: p.first_seen_at,
            streak: if p.streak < u64::MAX {
                (p.streak + 1) as u64
            } else {
                u64::MAX
            },
        }
    } else {
        PendingFocus { app_id: s.app_id, title: s.title, first_seen_at: s.sampled_at, streak: 1 }
    }
}

/// One classification step: the classifier state after a sample, paired
/// with the transition reported for it. Idle is evaluated first.
pub open spec fn classify_step(c: Classifier, s: FocusSample) -> (Classifier, Transition) {
    if c.idle_since is None && s.idle_ms >= c.idle_threshold_ms {
        (
            Classifier {
                idle_threshold_ms: c.idle_threshold_ms,
                debounce_count: c.debounce_count,
                idle_since: Option::Some(s.sampled_at),
                focus: c.focus,
                pending: Option::None,
            },
            Transition::WentIdle { since: s.sampled_at },
        )
    } else if c.idle_since is Some {
        if s.idle_ms < c.idle_threshold_ms {
            (
                Classifier {
                    idle_threshold_ms: c.idle_threshold_ms,
                    debounce_count: c.debounce_count,
                    idle_since: Option::None,
                    focus: c.focus,
                    pending: c.pending,
                },
                Transition::ReturnedFromIdle {
                    since: c.idle_since->0,
                    until: backdated_idle_end(s),
                },
            )
        } else {
            (c, Transition::NoChange)
        }
    } else if matches_focus(c, s) {
        (
            Classifier {
                idle_threshold_ms: c.idle_threshold_ms,
                debounce_count: c.debounce_count,
                idle_since: Option::None,
                focus: c.focus,
                pending: Option::None,
            },
            Transition::NoChange,
        )
    } else {
        let p = bumped_pending(c, s);
        if p.streak >= c.debounce_count {
            (
                Classifier {
                    idle_threshold_ms: c.idle_threshold_ms,
                    debounce_count: c.debounce_count,
                    idle_since: Option::None,
                    focus: Option::Some(FocusedWindow { name: p.app_id, title: p.title }),
                    pending: Option::None,
                },
                Transition::FocusChanged { app_id: p.app_id, title: p.title, at: p.first_seen_at },
            )
        } else {
            (
                Classifier {
                    idle_threshold_ms: c.idle_threshold_ms,
                    debounce_count: c.debounce_count,
                    idle_since: Option::None,
                    focus: c.focus,
                    pending: Option::Some(p),
                },
                Transition::NoChange,
            )
        }
    }
}

/// The classifier state after reseeding: the accepted focus is forgotten and
/// the sample becomes a fresh candidate, so that after an idle-abandon gap
/// the next focus must establish itself through the usual debounce.
pub open spec fn reseed_step(c: Classifier, s: FocusSample) -> Classifier {
    Classifier {
        idle_threshold_ms: c.idle_threshold_ms,
        debounce_count: c.debounce_count,
        idle_since: c.idle_since,
        focus: Option::None,
        pending: Option::Some(
            PendingFocus {
                app_id: s.app_id,
                title: s.title,
                first_seen_at: s.sampled_at,
                streak: 1,
            },
        ),
    }
}

impl Classifier {
    /// A fresh classifier with the given thresholds: no idle state, no
    /// accepted focus, no candidate.
    pub fn new(idle_threshold_ms: u64, debounce_count: u64) -> (c: Classifier)
        ensures
            c == (Classifier {
                idle_threshold_ms,
                debounce_count,
                idle_since: Option::None,
                focus: Option::None,
                pending: Option::None,
            }),
    {
        Classifier {
            idle_threshold_ms,
            debounce_count,
            idle_since: Option::None,
            focus: Option::None,
            pending: Option::None,
        }
    }

    /// Classify one sample, advancing the state exactly as `classify_step`
    /// describes.
    pub fn classify(&mut self, s: &FocusSample) -> (t: Transition)
        ensures
            *final(self) == classify_step(*old(self), *s).0,
            t == classify_step(*old(self), *s).1,
    {
        if self.idle_since.is_none() && s.idle_ms >= self.idle_threshold_ms {
            self.idle_since = Option::Some(s.sampled_at);
            self.pending = Option::None;
            return Transition::WentIdle { since: s.sampled_at };
        }
        if self.idle_since.is_some() {
            if s.idle_ms < self.idle_threshold_ms {
                let since = self.idle_since.unwrap();
                let until = if s.idle_ms <= s.sampled_at {
                    s.sampled_at - s.idle_ms
                } else {
                    0
                };
                self.idle_since = Option::None;
                return Transition::ReturnedFromIdle { since, until };
            }
            return Transition::NoChange;
        }
        let focus_matches = match &self.focus {
            Option::Some(f) => f.name == s.app_id && f.title == s.title,
            Option::None => false,
        };
        if focus_matches {
            self.pending = Option::None;
            return Transition::NoChange;
        }
        let p = match self.pending.take() {
            Option::Some(p0) => {
                if p0.app_id == s.app_id && p0.title == s.title {
                    PendingFocus {
                        app_id: p0.app_id,
                        title: p0.title,
                        first_seen_at: p0.first_seen_at,
                        streak: if p0.streak < u64::MAX {
                            p0.streak + 1
                        } else {
                            u64::MAX
                        },
                    }
                } else {
                    PendingFocus {
                        app_id: s.app_id.clone(),
                        title: s.title.clone(),
                        first_seen_at: s.sampled_at,
                        streak: 1,
                    }
                }
            },
            Option::None => PendingFocus {
                app_id: s.app_id.clone(),
                title: s.title.clone(),
                first_seen_at: s.sampled_at,
                streak: 1,
            },
        };
        if p.streak >= self.debounce_count {
            let at = p.first_seen_at;
            self.focus = Option::Some(
                FocusedWindow { name: p.app_id.clone(), title: p.title.clone() },
            );
            return Transition::FocusChanged { app_id: p.app_id, title: p.title, at };
        }
        self.pending = Option::Some(p);
        Transition::NoChange
    }

    /// Forget the accepted focus and seed the debounce with this sample.
    /// The tracker calls this when activity resumes after an idle-abandon
    /// gap, so that no session reopens before a fresh identity persists.
    pub fn reseed(&mut self, s: &FocusSample)
        ensures
            *final(self) == reseed_step(*old(self), *s),
    {
        self.focus = Option::None;
        self.pending = Option::Some(
            PendingFocus {
                app_id: s.app_id.clone(),
                title: s.title.clone(),
                first_seen_at: s.sampled_at,
                streak: 1,
            },
        );
    }
}

/// The classifier after a whole run of samples.
pub open spec fn run_classifier(c: Classifier, samples: Seq<FocusSample>) -> Classifier
    decreases samples.len(),
{
    if samples.len() == 0 {
        c
    } else {
        run_classifier(classify_step(c, samples[0]).0, samples.drop_first())
    }
}

/// Whether any step of a run reports a focus change.
pub open spec fn flags_focus_change(c: Classifier, samples: Seq<FocusSample>) -> bool
    decreases samples.len(),
{
    if samples.len() == 0 {
        false
    } else {
        classify_step(c, samples[0]).1 is FocusChanged || flags_focus_change(
            classify_step(c, samples[0]).0,
            samples.drop_first(),
        )
    }
}

/// The length of the candidate's streak, 0 when there is no candidate.
pub open spec fn pending_streak(c: Classifier) -> int {
    match c.pending {
        Option::Some(p) => p.streak as int,
        Option::None => 0,
    }
}

/// Whether every sample's idle reading stays below a threshold.
pub open spec fn all_below(samples: Seq<FocusSample>, threshold: u64) -> bool {
    forall|i: int| 0 <= i < samples.len() ==> #[trigger] samples[i].idle_ms < threshold
}

/// Debounce law: a focus flicker lasting fewer polls than the debounce
/// count never produces a `FocusChanged` transition. Feeding a non-idle
/// classifier any run of below-threshold samples whose length, on top of
/// the current candidate streak, stays under `debounce_count` reports no
/// focus change and leaves the accepted focus and the idle state untouched.
pub proof fn lemma_debounce(c: Classifier, samples: Seq<FocusSample>)
    requires
        c.idle_since is None,
        all_below(samples, c.idle_threshold_ms),
        pending_streak(c) + samples.len() < c.debounce_count,
    ensures
        !flags_focus_change(c, samples),
        run_classifier(c, samples).focus == c.focus,
        run_classifier(c, samples).idle_since is None,
    decreases samples.len(),
{
    if samples.len() > 0 {
        let s = samples[0];
        assert(s.idle_ms < c.idle_threshold_ms);
        let c2 = classify_step(c, s).0;
        assert(pending_streak(c2) <= pending_streak(c) + 1);
        assert(!(classify_step(c, s).1 is FocusChanged));
        assert(c2.focus == c.focus);
        assert(c2.idle_since is None);
        assert(c2.idle_threshold_ms == c.idle_threshold_ms);
        assert(c2.debounce_count == c.debounce_count);
        let rest = samples.drop_first();
        assert(all_below(rest, c2.idle_threshold_ms)) by {
            assert forall|i: int| 0 <= i < rest.len() implies #[trigger] rest[i].idle_ms
                < c2.idle_threshold_ms by {
                assert(rest[i] == samples[i + 1]);
            }
        }
        lemma_debounce(c2, rest);
    }
}

} // verus!
