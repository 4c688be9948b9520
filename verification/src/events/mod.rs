//! The event sources and what they have in common.

pub mod email;
pub mod events;
pub mod git;
pub mod gitlab;
pub mod ical;
pub mod mailbox;
pub mod redmine;
pub mod stackexchange;
