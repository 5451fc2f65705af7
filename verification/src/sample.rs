//! Normalization of raw operating-system readings into focus samples.
//!
//! The application performs the window-focus query and the idle query and
//! hands their outcomes over as plain optional values; a failed query arrives
//! as `None`. The functions here apply the fallback policy: absence of a
//! focused window is a first-class observation (the sentinel application id
//! `"none"`), and a missing idle reading counts as "not idle" rather than
//! failing the sample.

use vstd::prelude::*;

verus! {

/// Identity of the focused window as reported by the operating system:
/// the application name and the window title.
pub struct FocusedWindow {
    pub name: String,
    pub title: String,
}

/// One poll's combined reading: the focused application's identity and the
/// milliseconds since the user's last input, stamped with the poll time.
pub struct FocusSample {
    pub app_id: String,
    pub title: String,
    pub idle_ms: u64,
    pub sampled_at: u64,
}

/// The application id a sample carries for a given query outcome: the
/// window's name, or the sentinel `"none"` when the query failed or the
/// name was empty.
pub open spec fn normalized_app(window: Option<FocusedWindow>) -> Seq<char> {
    match window {
        Option::Some(w) => if w.name@.len() == 0 {
            "none"@
        } else {
            w.name@
        },
        Option::None => "none"@,
    }
}

/// The title a sample carries for a given query outcome: the window's title,
/// or empty when the query failed or the window's name was empty.
pub open spec fn normalized_title(window: Option<FocusedWindow>) -> Seq<char> {
    match window {
        Option::Some(w) => if w.name@.len() == 0 {
            Seq::<char>::empty()
        } else {
            w.title@
        },
        Option::None => Seq::<char>::empty(),
    }
}

/// The idle reading a sample carries: the queried value, or 0 when the idle
/// query failed, so that a missing reading never ends an active session.
pub open spec fn normalized_idle(idle: Option<u64>) -> u64 {
    match idle {
        Option::Some(ms) => ms,
        Option::None => 0,
    }
}

/// Snapshot of the focused window for immediate consumers: the query outcome
/// with an empty application name treated the same as a failed query.
pub fn get_focused_window(query: Option<FocusedWindow>) -> (r: Option<FocusedWindow>)
    ensures
        match query {
            Option::Some(w) => if w.name@.len() == 0 {
                r is None
            } else {
                (r matches Option::Some(v) && v.name@ == w.name@ && v.title@ == w.title@)
            },
            Option::None => r is None,
        },
{
    match query {
        Option::Some(w) => {
            if w.name.as_str().is_empty() {
                Option::None
            } else {
                Option::Some(w)
            }
        },
        Option::None => Option::None,
    }
}

/// Snapshot of the milliseconds since last input for immediate consumers:
/// the queried value, or 0 when the query failed.
pub fn get_last_input(query: Option<u128>) -> (r: u128)
    ensures
        r == match query {
            Option::Some(ms) => ms,
            Option::None => 0u128,
        },
{
    match query {
        Option::Some(ms) => ms,
        Option::None => 0,
    }
}

/// The sampler's merge step: one window-query outcome and one idle-query
/// outcome become a focus sample stamped with the poll time.
pub fn make_sample(window: Option<FocusedWindow>, idle: Option<u64>, sampled_at: u64) -> (s:
    FocusSample)
    ensures
        s.app_id@ == normalized_app(window),
        s.title@ == normalized_title(window),
        s.idle_ms == normalized_idle(idle),
        s.sampled_at == sampled_at,
{
    let idle_ms = match idle {
        Option::Some(ms) => ms,
        Option::None => 0,
    };
    match get_focused_window(window) {
        Option::Some(w) => FocusSample {
            app_id: w.name,
            title: w.title,
            idle_ms,
            sampled_at,
        },
        Option::None => FocusSample {
            app_id: "none".to_owned(),
            title: String::new(),
            idle_ms,
            sampled_at,
        },
    }
}

} // verus!
