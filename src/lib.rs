//! Admission gating for one-shot public actions.
//!
//! An administrator opens or closes each domain (voting, registration);
//! participants are admitted at most once (votes) or up to a slot's capacity
//! (registrations); privileged sessions guard changes to a gate; a winner is
//! drawn uniformly from the participants.

pub mod admission;
pub mod config;
pub mod error;
pub mod gate;
pub mod seeding;
pub mod sessions;
pub mod sources;
pub mod text;
pub mod winner;
