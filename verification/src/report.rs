//! The goal report: a nested list of sessions, teams, goals and key results.

use vstd::prelude::*;
use vstd::string::StringExecFns;
use crate::model::{Goal, Metric, Session};
use crate::goals::{goals_shown, is_stable_sort, select_goals};
use crate::filters::{lemma_filter_none, lemma_filter_one};
use crate::text::{date_part, date_part_of, same_text};

verus! {

/// One line of the report.
#[derive(Debug, PartialEq, Eq)]
pub enum ReportLine {
    /// The header of a session, with the dates of the goal that opened it.
    SessionHeader { title: String, date_from: String, date_to: String },
    /// The header of a team, under a session.
    TeamHeader { name: String },
    /// A goal, under a team.
    GoalLine { name: String, attainment: String },
    /// A key result, under a goal.
    KeyResult { name: String, actual: String, target: String },
}

/// A line of the report as text.
pub enum LineView {
    SessionHeader { title: Seq<char>, date_from: Seq<char>, date_to: Seq<char> },
    TeamHeader { name: Seq<char> },
    GoalLine { name: Seq<char>, attainment: Seq<char> },
    KeyResult { name: Seq<char>, actual: Seq<char>, target: Seq<char> },
}

impl View for ReportLine {
    type V = LineView;

    open spec fn view(&self) -> LineView {
        match *self {
            ReportLine::SessionHeader { title, date_from, date_to } => LineView::SessionHeader {
                title: title@,
                date_from: date_from@,
                date_to: date_to@,
            },
            ReportLine::TeamHeader { name } => LineView::TeamHeader { name: name@ },
            ReportLine::GoalLine { name, attainment } => LineView::GoalLine {
                name: name@,
                attainment: attainment@,
            },
            ReportLine::KeyResult { name, actual, target } => LineView::KeyResult {
                name: name@,
                actual: actual@,
                target: target@,
            },
        }
    }
}

/// The lines of a report as texts.
pub open spec fn lines_view(lines: Seq<ReportLine>) -> Seq<LineView> {
    Seq::new(lines.len(), |k: int| lines[k]@)
}

/// The title under which the session `id` is shown: that of the first of
/// `sessions` with this id, and `id` itself where there is none.
pub open spec fn session_title_of(sessions: Seq<Session>, id: Seq<char>) -> Seq<char>
    decreases sessions.len(),
{
    if sessions.len() == 0 {
        id
    } else if sessions[0].id@ == id {
        sessions[0].title@
    } else {
        session_title_of(sessions.drop_first(), id)
    }
}

/// The goal at `i` opens a session: it is the first goal, or the goal before
/// it belongs to another session.
pub open spec fn opens_session(goals: Seq<Goal>, i: int) -> bool {
    i == 0 || goals[i].session_id@ != goals[i - 1].session_id@
}

/// The goal at `i` opens a team: it opens a session, or the goal before it
/// has an owner of another name.
pub open spec fn opens_team(goals: Seq<Goal>, i: int) -> bool {
    opens_session(goals, i) || goals[i].assignee.name@ != goals[i - 1].assignee.name@
}

/// The session header that the goal `g` opens.
pub open spec fn session_header_of(sessions: Seq<Session>, g: Goal) -> LineView {
    LineView::SessionHeader {
        title: session_title_of(sessions, g.session_id@),
        date_from: date_part_of(g.date_from@),
        date_to: date_part_of(g.date_to@),
    }
}

/// The line of a key result.
pub open spec fn metric_line_of(m: Metric) -> LineView {
    LineView::KeyResult { name: m.name@, actual: m.actual@, target: m.target@ }
}

/// The lines of the key results of a goal, in the order in which it holds them.
pub open spec fn metric_lines_of(metrics: Seq<Metric>) -> Seq<LineView> {
    Seq::new(metrics.len(), |j: int| metric_line_of(metrics[j]))
}

/// The headers that stand before the goal at `i`: that of its session where
/// it opens one, then that of its team where it opens one.
pub open spec fn headers_of(goals: Seq<Goal>, sessions: Seq<Session>, i: int) -> Seq<LineView> {
    let session = if opens_session(goals, i) {
        seq![session_header_of(sessions, goals[i])]
    } else {
        Seq::empty()
    };
    let team = if opens_team(goals, i) {
        seq![LineView::TeamHeader { name: goals[i].assignee.name@ }]
    } else {
        Seq::empty()
    };
    session + team
}

/// The lines that the goal at `i` adds to the report: its headers, its own
/// line, and its key results.
pub open spec fn goal_block(goals: Seq<Goal>, sessions: Seq<Session>, i: int) -> Seq<LineView> {
    headers_of(goals, sessions, i) + seq![
        LineView::GoalLine { name: goals[i].name@, attainment: goals[i].attainment@ },
    ] + metric_lines_of(goals[i].metrics@)
}

/// The report of the first `n` goals: their blocks, one after the other.
pub open spec fn report_lines(goals: Seq<Goal>, sessions: Seq<Session>, n: int) -> Seq<LineView>
    decreases n,
{
    if n <= 0 {
        Seq::empty()
    } else {
        report_lines(goals, sessions, n - 1) + goal_block(goals, sessions, n - 1)
    }
}

/// The title under which the session `id` is shown.
pub fn session_title(sessions: &Vec<Session>, id: &str) -> (r: String)
    ensures
        r@ == session_title_of(sessions@, id@),
{
    let n: usize = sessions.len();
    let mut i: usize = 0;
    assert(sessions@.skip(0) =~= sessions@);
    while i < n
        invariant
            n == sessions@.len(),
            i <= n,
            session_title_of(sessions@, id@) == session_title_of(sessions@.skip(i as int), id@),
        decreases n - i,
    {
        proof {
            assert(sessions@.skip(i as int).drop_first() =~= sessions@.skip(i + 1));
        }
        if same_text(sessions[i].id.as_str(), id) {
            return sessions[i].title.clone();
        }
        i = i + 1;
    }
    id.to_owned()
}

/// The report of `goals`, which are taken in the order given; `sessions`
/// gives the titles of the session headers.
pub fn render_goals(goals: &Vec<Goal>, sessions: &Vec<Session>) -> (out: Vec<ReportLine>)
    ensures
        lines_view(out@) == report_lines(goals@, sessions@, goals@.len() as int),
{
    let mut out: Vec<ReportLine> = Vec::new();
    let n: usize = goals.len();
    let mut i: usize = 0;
    assert(lines_view(out@) =~= report_lines(goals@, sessions@, 0));
    while i < n
        invariant
            n == goals@.len(),
            i <= n,
            lines_view(out@) == report_lines(goals@, sessions@, i as int),
        decreases n - i,
    {
        let g = &goals[i];
        let ghost done = lines_view(out@);
        let new_session = i == 0 || !same_text(
            g.session_id.as_str(),
            goals[i - 1].session_id.as_str(),
        );
        let new_team = new_session || !same_text(
            g.assignee.name.as_str(),
            goals[i - 1].assignee.name.as_str(),
        );
        if new_session {
            out.push(
                ReportLine::SessionHeader {
                    title: session_title(sessions, g.session_id.as_str()),
                    date_from: date_part(g.date_from.as_str()),
                    date_to: date_part(g.date_to.as_str()),
                },
            );
        }
        if new_team {
            out.push(ReportLine::TeamHeader { name: g.assignee.name.clone() });
        }
        assert(lines_view(out@) =~= done + headers_of(goals@, sessions@, i as int));
        out.push(ReportLine::GoalLine { name: g.name.clone(), attainment: g.attainment.clone() });
        let ghost head = done + headers_of(goals@, sessions@, i as int) + seq![
            LineView::GoalLine { name: g.name@, attainment: g.attainment@ },
        ];
        assert(lines_view(out@) =~= head);
        let m: usize = g.metrics.len();
        let mut j: usize = 0;
        while j < m
            invariant
                m == g.metrics@.len(),
                j <= m,
                lines_view(out@) =~= head + metric_lines_of(g.metrics@).take(j as int),
            decreases m - j,
        {
            let k = &g.metrics[j];
            let ghost before = lines_view(out@);
            out.push(
                ReportLine::KeyResult {
                    name: k.name.clone(),
                    actual: k.actual.clone(),
                    target: k.target.clone(),
                },
            );
            assert(lines_view(out@) =~= before.push(metric_line_of(*k)));
            assert(metric_lines_of(g.metrics@).take(j + 1) =~= metric_lines_of(g.metrics@).take(
                j as int,
            ).push(metric_line_of(*k)));
            j = j + 1;
        }
        assert(metric_lines_of(g.metrics@).take(m as int) =~= metric_lines_of(g.metrics@));
        assert(lines_view(out@) =~= done + goal_block(goals@, sessions@, i as int));
        i = i + 1;
    }
    out
}

/// `lines` is the report at `now`: that of the goals shown at `now`, in the
/// order shown.
pub open spec fn is_goal_report(
    goals: Seq<Goal>,
    sessions: Seq<Session>,
    now: Seq<char>,
    lines: Seq<LineView>,
) -> bool {
    exists|shown: Seq<Goal>, order: Seq<int>|
        is_stable_sort(goals_shown(goals, now), shown, order) && lines == report_lines(
            shown,
            sessions,
            shown.len() as int,
        )
}

/// The report at `now`: the goals shown at `now` are put in the order shown
/// and laid out under the headers of their sessions and teams.
pub fn goal_report(goals: Vec<Goal>, sessions: &Vec<Session>, now: &str) -> (out: Vec<ReportLine>)
    ensures
        is_goal_report(goals@, sessions@, now@, lines_view(out@)),
{
    let shown = select_goals(goals, now);
    render_goals(&shown, sessions)
}

/// A session id that none of `sessions` has is shown as it is.
pub proof fn lemma_unknown_session_shown_by_id(sessions: Seq<Session>, id: Seq<char>)
    requires
        forall|i: int| 0 <= i < sessions.len() ==> sessions[i].id@ != id,
    ensures
        session_title_of(sessions, id) == id,
    decreases sessions.len(),
{
    if sessions.len() > 0 {
        let rest = sessions.drop_first();
        assert forall|i: int| 0 <= i < rest.len() implies rest[i].id@ != id by {
            assert(rest[i] == sessions[i + 1]);
        }
        lemma_unknown_session_shown_by_id(rest, id);
    }
}

/// A session id is shown by the title of the first of `sessions` that has it.
pub proof fn lemma_known_session_shown_by_title(sessions: Seq<Session>, id: Seq<char>, k: int)
    requires
        0 <= k < sessions.len(),
        sessions[k].id@ == id,
        forall|i: int| 0 <= i < k ==> sessions[i].id@ != id,
    ensures
        session_title_of(sessions, id) == sessions[k].title@,
    decreases sessions.len(),
{
    if k > 0 {
        let rest = sessions.drop_first();
        assert forall|i: int| 0 <= i < k - 1 implies rest[i].id@ != id by {
            assert(rest[i] == sessions[i + 1]);
        }
        lemma_known_session_shown_by_title(rest, id, k - 1);
    }
}

/// The session headers among `lines`, in their order.
pub open spec fn session_headers(lines: Seq<LineView>) -> Seq<LineView> {
    lines.filter(|l: LineView| l is SessionHeader)
}

/// The team headers among `lines`, in their order.
pub open spec fn team_headers(lines: Seq<LineView>) -> Seq<LineView> {
    lines.filter(|l: LineView| l is TeamHeader)
}

/// One session header for each of the first `n` goals that opens a session:
/// for each maximal run of goals of one session.
pub open spec fn session_runs(goals: Seq<Goal>, sessions: Seq<Session>, n: int) -> Seq<LineView>
    decreases n,
{
    if n <= 0 {
        Seq::empty()
    } else if opens_session(goals, n - 1) {
        session_runs(goals, sessions, n - 1).push(session_header_of(sessions, goals[n - 1]))
    } else {
        session_runs(goals, sessions, n - 1)
    }
}

/// One team header for each of the first `n` goals that opens a team: for
/// each maximal run, within a run of one session, of goals of one owner.
pub open spec fn team_runs(goals: Seq<Goal>, n: int) -> Seq<LineView>
    decreases n,
{
    if n <= 0 {
        Seq::empty()
    } else if opens_team(goals, n - 1) {
        team_runs(goals, n - 1).push(LineView::TeamHeader { name: goals[n - 1].assignee.name@ })
    } else {
        team_runs(goals, n - 1)
    }
}

/// The report holds one session header for each maximal run of goals of one
/// session, and one team header for each maximal run of goals of one owner
/// within such a run; so a team header follows every session header, also
/// where the owner is the one of the goal before.
pub proof fn lemma_one_header_for_each_run(goals: Seq<Goal>, sessions: Seq<Session>, n: int)
    requires
        0 <= n <= goals.len(),
    ensures
        session_headers(report_lines(goals, sessions, n)) == session_runs(goals, sessions, n),
        team_headers(report_lines(goals, sessions, n)) == team_runs(goals, n),
        forall|i: int| 0 <= i < n && opens_session(goals, i) ==> opens_team(goals, i),
    decreases n,
{
    let is_session = |l: LineView| l is SessionHeader;
    let is_team = |l: LineView| l is TeamHeader;
    if n <= 0 {
        lemma_filter_none(Seq::<LineView>::empty(), is_session);
        lemma_filter_none(Seq::<LineView>::empty(), is_team);
    } else {
        let i = n - 1;
        lemma_one_header_for_each_run(goals, sessions, i);
        let done = report_lines(goals, sessions, i);
        let session_line = session_header_of(sessions, goals[i]);
        let team_line = LineView::TeamHeader { name: goals[i].assignee.name@ };
        let goal_line = LineView::GoalLine { name: goals[i].name@, attainment: goals[i].attainment@ };
        let session_part = if opens_session(goals, i) {
            seq![session_line]
        } else {
            Seq::empty()
        };
        let team_part = if opens_team(goals, i) {
            seq![team_line]
        } else {
            Seq::empty()
        };
        let results = metric_lines_of(goals[i].metrics@);
        assert(report_lines(goals, sessions, n) == done + (session_part + team_part + seq![
            goal_line,
        ] + results));
        lemma_filter_one(session_line, is_session);
        lemma_filter_one(session_line, is_team);
        lemma_filter_one(team_line, is_session);
        lemma_filter_one(team_line, is_team);
        lemma_filter_one(goal_line, is_session);
        lemma_filter_one(goal_line, is_team);
        lemma_filter_none(Seq::<LineView>::empty(), is_session);
        lemma_filter_none(Seq::<LineView>::empty(), is_team);
        lemma_filter_none(results, is_session);
        lemma_filter_none(results, is_team);
        Seq::filter_distributes_over_add(session_part, team_part, is_session);
        Seq::filter_distributes_over_add(session_part, team_part, is_team);
        Seq::filter_distributes_over_add(session_part + team_part, seq![goal_line], is_session);
        Seq::filter_distributes_over_add(session_part + team_part, seq![goal_line], is_team);
        Seq::filter_distributes_over_add(
            session_part + team_part + seq![goal_line],
            results,
            is_session,
        );
        Seq::filter_distributes_over_add(session_part + team_part + seq![goal_line], results, is_team);
        Seq::filter_distributes_over_add(
            done,
            session_part + team_part + seq![goal_line] + results,
            is_session,
        );
        Seq::filter_distributes_over_add(
            done,
            session_part + team_part + seq![goal_line] + results,
            is_team,
        );
        assert(session_headers(report_lines(goals, sessions, n)) =~= session_runs(
            goals,
            sessions,
            n,
        ));
        assert(team_headers(report_lines(goals, sessions, n)) =~= team_runs(goals, n));
    }
}

/// A line of the report as it is printed.
pub open spec fn line_text(l: LineView) -> Seq<char> {
    match l {
        LineView::SessionHeader { title, date_from, date_to } => "* **"@ + title + "** ("@
            + date_from + " to "@ + date_to + ")"@,
        LineView::TeamHeader { name } => "    * **"@ + name + "**"@,
        LineView::GoalLine { name, attainment } => "        * "@ + name + " ("@ + attainment
            + "%)"@,
        LineView::KeyResult { name, actual, target } => "            * KR: "@ + name + " ("@
            + actual + "/"@ + target + ")"@,
    }
}

impl ReportLine {
    /// The line as it is printed.
    pub fn text(&self) -> (r: String)
        ensures
            r@ == line_text(self@),
    {
        match self {
            ReportLine::SessionHeader { title, date_from, date_to } => {
                let mut r = String::from_str("* **");
                r.append(title.as_str());
                r.append("** (");
                r.append(date_from.as_str());
                r.append(" to ");
                r.append(date_to.as_str());
                r.append(")");
                r
            },
            ReportLine::TeamHeader { name } => {
                let mut r = String::from_str("    * **");
                r.append(name.as_str());
                r.append("**");
                r
            },
            ReportLine::GoalLine { name, attainment } => {
                let mut r = String::from_str("        * ");
                r.append(name.as_str());
                r.append(" (");
                r.append(attainment.as_str());
                r.append("%)");
                r
            },
            ReportLine::KeyResult { name, actual, target } => {
                let mut r = String::from_str("            * KR: ");
                r.append(name.as_str());
                r.append(" (");
                r.append(actual.as_str());
                r.append("/");
                r.append(target.as_str());
                r.append(")");
                r
            },
        }
    }
}

} // verus!
