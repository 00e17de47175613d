//! The records of the platform, as far as the reports read them.

use vstd::prelude::*;

verus! {

/// The account and the token with which the platform is asked.
#[derive(Debug)]
pub struct Credential {
    pub account_id: String,
    pub api_token: String,
}

/// A team, as listed.
#[derive(Debug)]
pub struct Team {
    pub id: String,
    pub name: String,
}

/// A planning session. `start` and `end` are timestamps of fixed width, so
/// that their lexical order is their order in time.
#[derive(Debug)]
pub struct Session {
    pub id: String,
    pub title: String,
    pub start: String,
    pub end: String,
    pub status: String,
}

/// The owner of a goal; `kind` is `"team"` or `"user"`.
#[derive(Debug)]
pub struct Assignee {
    pub id: String,
    pub name: String,
    pub kind: String,
}

/// A key result of a goal. `actual` and `target` are held as they are shown.
#[derive(Debug)]
pub struct Metric {
    pub name: String,
    pub actual: String,
    pub target: String,
}

/// A goal. `attainment` is held as it is shown: the percentage, without
/// decimals. `date_from` and `date_to` are timestamps like those of a session.
#[derive(Debug)]
pub struct Goal {
    pub id: String,
    pub name: String,
    pub session_id: String,
    pub date_from: String,
    pub date_to: String,
    pub attainment: String,
    pub assignee: Assignee,
    pub metrics: Vec<Metric>,
}

} // verus!
