//! Reporting logic of a read-only client for an OKR platform: which goals and
//! planning sessions are shown, in what order, and how the goals are laid out
//! as a nested report; and the decisions taken while a credential is resolved.

pub mod filters;
pub mod text;
pub mod model;
pub mod credentials;
pub mod sessions;
pub mod goals;
pub mod report;
pub mod lists;
pub mod clock;
pub mod requests;
