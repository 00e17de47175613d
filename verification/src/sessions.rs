//! Which planning sessions are listed.

use vstd::prelude::*;
use crate::filters::{lemma_filter_keeps, lemma_filter_same, lemma_filter_step};
use crate::model::Session;
use crate::text::{lemma_lex_le_refl, lex_le, same_text, str_le};

verus! {

/// Which sessions a list shows.
#[derive(Debug, Clone, Copy, PartialEq, Eq)]
pub enum SessionMode {
    /// Every session.
    All,
    /// The sessions that hold the present moment.
    Current,
    /// The sessions that are not closed.
    Open,
}

impl SessionMode {
    /// The mode that the two switches ask for; both together ask for none.
    pub fn from_flags(all: bool, current: bool) -> (r: Option<SessionMode>)
        ensures
            r == (if all && current {
                None
            } else if all {
                Some(SessionMode::All)
            } else if current {
                Some(SessionMode::Current)
            } else {
                Some(SessionMode::Open)
            }),
    {
        if all && current {
            None
        } else if all {
            Some(SessionMode::All)
        } else if current {
            Some(SessionMode::Current)
        } else {
            Some(SessionMode::Open)
        }
    }
}

/// A session holds `now` where it has started and has not ended, both ends
/// included.
pub open spec fn session_is_current(s: Session, now: Seq<char>) -> bool {
    lex_le(now, s.end@) && lex_le(s.start@, now)
}

/// Whether `mode` shows the session `s` at `now`.
pub open spec fn session_is_shown(s: Session, mode: SessionMode, now: Seq<char>) -> bool {
    match mode {
        SessionMode::All => true,
        SessionMode::Current => session_is_current(s, now),
        SessionMode::Open => s.status@ != "closed"@,
    }
}

/// The sessions that `mode` shows at `now`, in the order given.
pub open spec fn sessions_shown(sessions: Seq<Session>, mode: SessionMode, now: Seq<char>) -> Seq<
    Session,
> {
    sessions.filter(|s: Session| session_is_shown(s, mode, now))
}

/// Whether `mode` shows the session `s` at `now`.
pub fn is_shown_session(s: &Session, mode: SessionMode, now: &str) -> (r: bool)
    ensures
        r == session_is_shown(*s, mode, now@),
{
    match mode {
        SessionMode::All => true,
        SessionMode::Current => str_le(now, s.end.as_str()) && str_le(s.start.as_str(), now),
        SessionMode::Open => !same_text(s.status.as_str(), "closed"),
    }
}

/// The sessions that `mode` shows at `now`, in the order in which they were
/// given.
pub fn filter_sessions(sessions: Vec<Session>, mode: SessionMode, now: &str) -> (out: Vec<Session>)
    ensures
        out@ == sessions_shown(sessions@, mode, now@),
{
    let mut out: Vec<Session> = Vec::new();
    let ghost pred = |s: Session| session_is_shown(s, mode, now@);
    for s in it: sessions
        invariant
            it.seq() == sessions@,
            forall|x: Session| #[trigger] pred(x) == session_is_shown(x, mode, now@),
            out@ == sessions@.take(it.index() as int).filter(pred),
    {
        proof {
            lemma_filter_step(sessions@, pred, it.index() as int);
        }
        if is_shown_session(&s, mode, now) {
            out.push(s);
        }
    }
    assert(sessions@.take(sessions@.len() as int) =~= sessions@);
    out
}

/// A session is among those shown if and only if it is among those given and
/// `mode` shows it.
pub proof fn lemma_filter_sessions_exact(
    sessions: Seq<Session>,
    mode: SessionMode,
    now: Seq<char>,
    s: Session,
)
    ensures
        sessions_shown(sessions, mode, now).contains(s) <==> sessions.contains(s)
            && session_is_shown(s, mode, now),
{
    lemma_filter_keeps(sessions, |s: Session| session_is_shown(s, mode, now), s);
}

/// Only the mode `Current` looks at the moment: the other two show the same
/// sessions at any two moments.
pub proof fn lemma_moment_matters_to_current_only(
    sessions: Seq<Session>,
    mode: SessionMode,
    now: Seq<char>,
    then: Seq<char>,
)
    requires
        mode != SessionMode::Current,
    ensures
        sessions_shown(sessions, mode, now) == sessions_shown(sessions, mode, then),
{
    lemma_filter_same(
        sessions,
        |s: Session| session_is_shown(s, mode, now),
        |s: Session| session_is_shown(s, mode, then),
    );
}

/// A session that starts and ends at `now` holds `now`.
pub proof fn lemma_current_includes_bounds(s: Session, now: Seq<char>)
    requires
        s.start@ == now,
        s.end@ == now,
    ensures
        session_is_current(s, now),
        session_is_shown(s, SessionMode::Current, now),
{
    lemma_lex_le_refl(now);
}

} // verus!
