//! Moderation of a group: mutes, removals and titles.

pub mod args;
pub mod records;
pub mod tools;
