//! Taking part in a conversation without being asked: who is judged, what is kept
//! of each relationship and mood, and which answers are under way.

pub mod active_judgement_skip;
pub mod affection;
pub mod affection_log;
pub mod decision_log;
pub mod emotion;
pub mod judge;
pub mod locale;
pub mod pending;
pub mod targeting;
