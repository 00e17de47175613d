use gtm_okr::clock::sessions_now;
use gtm_okr::lists::{session_line, session_lines, team_line, team_lines};
use gtm_okr::model::{Session, Team};
use gtm_okr::sessions::{filter_sessions, is_shown_session, SessionMode};

fn session(id: &str, start: &str, end: &str, status: &str) -> Session {
    Session {
        id: id.to_string(),
        title: format!("title {}", id),
        start: start.to_string(),
        end: end.to_string(),
        status: status.to_string(),
    }
}

fn ids(sessions: &Vec<Session>) -> Vec<String> {
    sessions.iter().map(|s| s.id.clone()).collect()
}

fn three() -> Vec<Session> {
    vec![
        session("1", "2023-01-01T00:00:00Z", "2023-12-31T00:00:00Z", "closed"),
        session("2", "2024-01-01T00:00:00Z", "2024-12-31T00:00:00Z", "open"),
        session("3", "2025-01-01T00:00:00Z", "2025-12-31T00:00:00Z", "planned"),
    ]
}

#[test]
fn mode_from_the_two_switches() {
    assert_eq!(SessionMode::from_flags(false, false), Some(SessionMode::Open));
    assert_eq!(SessionMode::from_flags(true, false), Some(SessionMode::All));
    assert_eq!(SessionMode::from_flags(false, true), Some(SessionMode::Current));
    assert_eq!(SessionMode::from_flags(true, true), None);
}

#[test]
fn all_shows_every_session() {
    let out = filter_sessions(three(), SessionMode::All, "2024-06-15T00:00:00Z");
    assert_eq!(ids(&out), vec!["1".to_string(), "2".to_string(), "3".to_string()]);
}

#[test]
fn current_shows_sessions_that_hold_now() {
    let out = filter_sessions(three(), SessionMode::Current, "2024-06-15T00:00:00Z");
    assert_eq!(ids(&out), vec!["2".to_string()]);
}

#[test]
fn open_shows_sessions_that_are_not_closed() {
    let out = filter_sessions(three(), SessionMode::Open, "2024-06-15T00:00:00Z");
    assert_eq!(ids(&out), vec!["2".to_string(), "3".to_string()]);
}

#[test]
fn current_includes_a_session_that_starts_and_ends_now() {
    let now = "2024-06-15T00:00:00Z";
    let s = session("1", now, now, "closed");
    assert!(is_shown_session(&s, SessionMode::Current, now));
    assert!(!is_shown_session(&s, SessionMode::Open, now));
    let before = session("2", "2024-06-15T00:00:01Z", "2024-06-16T00:00:00Z", "open");
    assert!(!is_shown_session(&before, SessionMode::Current, now));
    let after = session("3", "2024-06-01T00:00:00Z", "2024-06-14T23:59:59Z", "open");
    assert!(!is_shown_session(&after, SessionMode::Current, now));
}

#[test]
fn sessions_now_reads_the_clock() {
    let sessions = vec![
        session("past", "0000", "1999-12-31T23:59:59Z", "closed"),
        session("always", "0000", "9999", "closed"),
    ];
    let out = sessions_now(sessions, SessionMode::Current);
    assert_eq!(ids(&out), vec!["always".to_string()]);
    assert_eq!(ids(&sessions_now(three(), SessionMode::Open)), vec!["2".to_string(), "3".to_string()]);
}

#[test]
fn session_lines_with_and_without_ids() {
    let s = session("7", "a", "b", "open");
    assert_eq!(session_line(&s, false), "* title 7 (open)");
    assert_eq!(session_line(&s, true), "* 7: title 7 (open)");
    let out = session_lines(&three(), true);
    assert_eq!(
        out,
        vec![
            "* 1: title 1 (closed)".to_string(),
            "* 2: title 2 (open)".to_string(),
            "* 3: title 3 (planned)".to_string()
        ]
    );
}

#[test]
fn team_lines_with_and_without_ids() {
    let teams = vec![
        Team { id: "t1".to_string(), name: "Web".to_string() },
        Team { id: "t2".to_string(), name: "Api".to_string() },
    ];
    assert_eq!(team_line(&teams[0], false), "* Web");
    assert_eq!(team_line(&teams[0], true), "* t1: Web");
    assert_eq!(team_lines(&teams, false), vec!["* Web".to_string(), "* Api".to_string()]);
    assert_eq!(team_lines(&teams, true), vec!["* t1: Web".to_string(), "* t2: Api".to_string()]);
}
