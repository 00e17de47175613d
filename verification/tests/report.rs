use gtm_okr::clock::goal_report_now;
use gtm_okr::model::{Assignee, Goal, Metric, Session};
use gtm_okr::report::{goal_report, render_goals, session_title, ReportLine};
use gtm_okr::text::{date_part, same_text};

fn session(id: &str, title: &str) -> Session {
    Session {
        id: id.to_string(),
        title: title.to_string(),
        start: "2024-01-01T00:00:00Z".to_string(),
        end: "2024-12-31T00:00:00Z".to_string(),
        status: "open".to_string(),
    }
}

fn metric(name: &str, actual: &str, target: &str) -> Metric {
    Metric { name: name.to_string(), actual: actual.to_string(), target: target.to_string() }
}

fn team_goal(name: &str, session: &str, team: &str, metrics: Vec<Metric>) -> Goal {
    Goal {
        id: name.to_string(),
        name: name.to_string(),
        session_id: session.to_string(),
        date_from: "2024-01-01T00:00:00Z".to_string(),
        date_to: "2024-12-31T23:59:59Z".to_string(),
        attainment: "50".to_string(),
        assignee: Assignee { id: "a".to_string(), name: team.to_string(), kind: "team".to_string() },
        metrics,
    }
}

fn header(title: &str) -> ReportLine {
    ReportLine::SessionHeader {
        title: title.to_string(),
        date_from: "2024-01-01".to_string(),
        date_to: "2024-12-31".to_string(),
    }
}

fn team(name: &str) -> ReportLine {
    ReportLine::TeamHeader { name: name.to_string() }
}

fn line(name: &str) -> ReportLine {
    ReportLine::GoalLine { name: name.to_string(), attainment: "50".to_string() }
}

#[test]
fn date_part_stops_at_the_first_t() {
    assert_eq!(date_part("2024-01-01T00:00:00Z"), "2024-01-01");
    assert_eq!(date_part("2024-01-01"), "2024-01-01");
    assert_eq!(date_part("T12"), "");
    assert_eq!(date_part(""), "");
    assert_eq!(date_part("aTbTc"), "a");
}

#[test]
fn same_text_compares_whole_texts() {
    assert!(same_text("team", "team"));
    assert!(!same_text("team", "teams"));
    assert!(!same_text("team", "user"));
    assert!(same_text("", ""));
}

#[test]
fn title_of_the_first_session_with_the_id() {
    let sessions = vec![session("s1", "Q1"), session("s2", "Q2"), session("s2", "other")];
    assert_eq!(session_title(&sessions, "s2"), "Q2");
    assert_eq!(session_title(&sessions, "s1"), "Q1");
}

#[test]
fn unknown_session_is_shown_by_its_id() {
    let sessions = vec![session("s1", "Q1")];
    assert_eq!(session_title(&sessions, "60e48512"), "60e48512");
    assert_eq!(session_title(&Vec::new(), "s1"), "s1");
    let out = render_goals(&vec![team_goal("g", "missing", "Web", Vec::new())], &sessions);
    assert_eq!(out, vec![header("missing"), team("Web"), line("g")]);
}

#[test]
fn one_session_header_for_each_run() {
    let sessions = vec![session("s1", "Q1"), session("s2", "Q2")];
    let goals = vec![
        team_goal("g1", "s1", "Web", Vec::new()),
        team_goal("g2", "s1", "Web", Vec::new()),
        team_goal("g3", "s1", "Api", Vec::new()),
        team_goal("g4", "s2", "Api", Vec::new()),
        team_goal("g5", "s1", "Api", Vec::new()),
    ];
    let out = render_goals(&goals, &sessions);
    assert_eq!(
        out,
        vec![
            header("Q1"),
            team("Web"),
            line("g1"),
            line("g2"),
            team("Api"),
            line("g3"),
            header("Q2"),
            team("Api"),
            line("g4"),
            header("Q1"),
            team("Api"),
            line("g5"),
        ]
    );
}

#[test]
fn team_header_again_after_a_session_break() {
    let sessions = vec![session("s1", "Q1"), session("s2", "Q2")];
    let goals =
        vec![team_goal("g1", "s1", "Web", Vec::new()), team_goal("g2", "s2", "Web", Vec::new())];
    let out = render_goals(&goals, &sessions);
    assert_eq!(
        out,
        vec![header("Q1"), team("Web"), line("g1"), header("Q2"), team("Web"), line("g2")]
    );
}

#[test]
fn empty_session_id_and_name_still_get_headers() {
    let out = render_goals(&vec![team_goal("g", "", "", Vec::new())], &Vec::new());
    assert_eq!(out, vec![header(""), team(""), line("g")]);
}

#[test]
fn key_results_follow_their_goal_in_order() {
    let goals = vec![team_goal(
        "g1",
        "s1",
        "Web",
        vec![metric("zeta", "3", "10"), metric("alpha", "0.5", "1")],
    )];
    let out = render_goals(&goals, &vec![session("s1", "Q1")]);
    assert_eq!(
        out,
        vec![
            header("Q1"),
            team("Web"),
            line("g1"),
            ReportLine::KeyResult {
                name: "zeta".to_string(),
                actual: "3".to_string(),
                target: "10".to_string()
            },
            ReportLine::KeyResult {
                name: "alpha".to_string(),
                actual: "0.5".to_string(),
                target: "1".to_string()
            },
        ]
    );
}

#[test]
fn header_dates_without_a_time_are_shown_whole() {
    let mut g = team_goal("g", "s1", "Web", Vec::new());
    g.date_from = "2024-02-01".to_string();
    g.date_to = "2024-03-01".to_string();
    let out = render_goals(&vec![g], &Vec::new());
    assert_eq!(
        out[0],
        ReportLine::SessionHeader {
            title: "s1".to_string(),
            date_from: "2024-02-01".to_string(),
            date_to: "2024-03-01".to_string()
        }
    );
}

#[test]
fn report_of_no_goals_is_empty() {
    assert!(render_goals(&Vec::new(), &vec![session("s1", "Q1")]).is_empty());
}

#[test]
fn lines_as_printed() {
    assert_eq!(header("Q1").text(), "* **Q1** (2024-01-01 to 2024-12-31)");
    assert_eq!(team("Web").text(), "    * **Web**");
    assert_eq!(line("Ship it").text(), "        * Ship it (50%)");
    let kr = ReportLine::KeyResult {
        name: "Latency".to_string(),
        actual: "3.5".to_string(),
        target: "10".to_string(),
    };
    assert_eq!(kr.text(), "            * KR: Latency (3.5/10)");
}

#[test]
fn report_filters_sorts_and_groups() {
    let sessions = vec![session("s1", "Q1"), session("s2", "Q2")];
    let mut late = team_goal("late", "s2", "Web", Vec::new());
    late.date_from = "2024-04-01T00:00:00Z".to_string();
    let mut over = team_goal("over", "s1", "Web", Vec::new());
    over.date_to = "2024-03-01T00:00:00Z".to_string();
    let mut personal = team_goal("personal", "s1", "Ann", Vec::new());
    personal.assignee.kind = "user".to_string();
    let goals = vec![
        late,
        team_goal("web", "s1", "Web", Vec::new()),
        over,
        team_goal("api", "s1", "Api", Vec::new()),
        personal,
        team_goal("web2", "s1", "Web", Vec::new()),
    ];
    let out = goal_report(goals, &sessions, "2024-06-15T00:00:00Z");
    let late_header = ReportLine::SessionHeader {
        title: "Q2".to_string(),
        date_from: "2024-04-01".to_string(),
        date_to: "2024-12-31".to_string(),
    };
    assert_eq!(
        out,
        vec![
            header("Q1"),
            team("Api"),
            line("api"),
            team("Web"),
            line("web"),
            line("web2"),
            late_header,
            team("Web"),
            line("late"),
        ]
    );
}

#[test]
fn report_now_shows_what_is_current_now() {
    let mut always = team_goal("always", "s1", "Web", Vec::new());
    always.date_from = "0000".to_string();
    always.date_to = "9999".to_string();
    let mut past = team_goal("past", "s1", "Web", Vec::new());
    past.date_from = "0000".to_string();
    past.date_to = "1999-12-31T23:59:59Z".to_string();
    let out = goal_report_now(vec![past, always], &vec![session("s1", "Q1")]);
    assert_eq!(
        out,
        vec![
            ReportLine::SessionHeader {
                title: "Q1".to_string(),
                date_from: "0000".to_string(),
                date_to: "9999".to_string()
            },
            team("Web"),
            line("always"),
        ]
    );
}

#[test]
fn date_part_of_text_beyond_ascii() {
    assert_eq!(date_part("\u{e9}t\u{e9}T12"), "\u{e9}t\u{e9}");
    assert_eq!(date_part("\u{10348}"), "\u{10348}");
}
