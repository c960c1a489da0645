//! Verified core of the GQY chat assistant: the rules behind its QQ plugins and
//! its terminal renderer, stated over plain values.

pub mod arguments;
pub(crate) mod chance;
pub mod group_management;
pub mod json;
pub mod meme_collector;
pub mod message_history;
pub mod message_recall;
pub mod numbers;
pub mod order;
pub mod platform;
pub mod real_context;
pub mod recall_memory;
pub mod render;
pub mod renderer;
pub mod reply_processor;
pub mod text;
pub mod times;
pub mod withdrawal;
