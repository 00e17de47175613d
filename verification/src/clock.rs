//! The reports at the present moment, which is read from the system's clock.

use vstd::prelude::*;
use crate::model::{Goal, Session};
use crate::report::{goal_report, is_goal_report, lines_view, ReportLine};
use crate::sessions::{
    filter_sessions, lemma_moment_matters_to_current_only, sessions_shown, SessionMode,
};

verus! {

/// The present moment in UTC as an RFC 3339 timestamp: `chrono::Utc::now`
/// followed by `DateTime::to_rfc3339`. Nothing is claimed of the text, which
/// differs from call to call. `Utc::now` does not return where the system's
/// clock stands before 1970.
#[verifier::external_body]
fn utc_now_text() -> (r: String) {
    chrono::Utc::now().to_rfc3339()
}

/// The goal report at the present moment.
pub fn goal_report_now(goals: Vec<Goal>, sessions: &Vec<Session>) -> (out: Vec<ReportLine>)
    ensures
        exists|now: Seq<char>| is_goal_report(goals@, sessions@, now, lines_view(out@)),
{
    let now = utc_now_text();
    let out = goal_report(goals, sessions, now.as_str());
    assert(is_goal_report(goals@, sessions@, now@, lines_view(out@)));
    out
}

/// The sessions that `mode` shows at the present moment. The clock is read
/// only where `mode` looks at the moment.
pub fn sessions_now(sessions: Vec<Session>, mode: SessionMode) -> (out: Vec<Session>)
    ensures
        exists|now: Seq<char>| out@ == sessions_shown(sessions@, mode, now),
        mode != SessionMode::Current ==> forall|now: Seq<char>|
            out@ == #[trigger] sessions_shown(sessions@, mode, now),
{
    match mode {
        SessionMode::Current => {
            let now = utc_now_text();
            let out = filter_sessions(sessions, mode, now.as_str());
            assert(out@ == sessions_shown(sessions@, mode, now@));
            out
        },
        _ => {
            let out = filter_sessions(sessions, mode, "");
            assert(out@ == sessions_shown(sessions@, mode, ""@));
            assert forall|now: Seq<char>| out@ == #[trigger] sessions_shown(
                sessions@,
                mode,
                now,
            ) by {
                lemma_moment_matters_to_current_only(sessions@, mode, ""@, now);
            }
            out
        },
    }
}

} // verus!
