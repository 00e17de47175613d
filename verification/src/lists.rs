//! The plain lists of teams and of sessions.

use vstd::prelude::*;
use vstd::string::StringExecFns;
use crate::model::{Session, Team};

verus! {

/// The line of a session in a list, with its id in front where `ids` is set.
pub open spec fn session_line_of(s: Session, ids: bool) -> Seq<char> {
    if ids {
        "* "@ + s.id@ + ": "@ + s.title@ + " ("@ + s.status@ + ")"@
    } else {
        "* "@ + s.title@ + " ("@ + s.status@ + ")"@
    }
}

/// The line of a team in a list, with its id in front where `ids` is set.
pub open spec fn team_line_of(t: Team, ids: bool) -> Seq<char> {
    if ids {
        "* "@ + t.id@ + ": "@ + t.name@
    } else {
        "* "@ + t.name@
    }
}

/// The line of a session in a list.
pub fn session_line(s: &Session, ids: bool) -> (r: String)
    ensures
        r@ == session_line_of(*s, ids),
{
    let mut r = String::from_str("* ");
    if ids {
        r.append(s.id.as_str());
        r.append(": ");
    }
    r.append(s.title.as_str());
    r.append(" (");
    r.append(s.status.as_str());
    r.append(")");
    r
}

/// The line of a team in a list.
pub fn team_line(t: &Team, ids: bool) -> (r: String)
    ensures
        r@ == team_line_of(*t, ids),
{
    let mut r = String::from_str("* ");
    if ids {
        r.append(t.id.as_str());
        r.append(": ");
    }
    r.append(t.name.as_str());
    r
}

/// The list of `sessions`: one line for each, in the order given.
pub fn session_lines(sessions: &Vec<Session>, ids: bool) -> (out: Vec<String>)
    ensures
        out@.len() == sessions@.len(),
        forall|i: int| 0 <= i < out@.len() ==> (#[trigger] out@[i])@ == session_line_of(sessions@[i], ids),
{
    let mut out: Vec<String> = Vec::new();
    let n: usize = sessions.len();
    let mut i: usize = 0;
    while i < n
        invariant
            n == sessions@.len(),
            i <= n,
            out@.len() == i,
            forall|k: int| 0 <= k < i ==> (#[trigger] out@[k])@ == session_line_of(sessions@[k], ids),
        decreases n - i,
    {
        out.push(session_line(&sessions[i], ids));
        i = i + 1;
    }
    out
}

/// The list of `teams`: one line for each, in the order given.
pub fn team_lines(teams: &Vec<Team>, ids: bool) -> (out: Vec<String>)
    ensures
        out@.len() == teams@.len(),
        forall|i: int| 0 <= i < out@.len() ==> (#[trigger] out@[i])@ == team_line_of(teams@[i], ids),
{
    let mut out: Vec<String> = Vec::new();
    let n: usize = teams.len();
    let mut i: usize = 0;
    while i < n
        invariant
            n == teams@.len(),
            i <= n,
            out@.len() == i,
            forall|k: int| 0 <= k < i ==> (#[trigger] out@[k])@ == team_line_of(teams@[k], ids),
        decreases n - i,
    {
        out.push(team_line(&teams[i], ids));
        i = i + 1;
    }
    out
}

} // verus!
