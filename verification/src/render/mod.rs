//! Showing answers in a terminal.

pub mod blocks;
pub mod commands;
pub mod math;
pub mod pictures;
pub mod raster;
pub mod reasoning_phase;
pub mod symbols;
pub mod table;
