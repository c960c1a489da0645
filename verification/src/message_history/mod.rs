//! The history of conversations: what is kept of each message, and the tools that
//! read and delete it.

pub mod args;
pub mod dashboard;
pub mod deletion;
pub mod listing;
pub mod record;
pub mod store;
