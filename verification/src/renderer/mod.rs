//! Rendering long answers as images: what a renderer is configured with, and how a
//! worker process is talked to.

pub mod fonts;
pub mod worker;
