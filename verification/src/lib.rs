//! A task-board library: tasks in three status lanes, column views derived
//! from one backing sequence, a modal interaction state machine, and a JSON
//! persistence format, all with verified contracts.

pub mod app;
pub mod buffer;
pub mod codec;
pub mod json;
pub mod laws;
pub mod strings;
pub mod task;
pub mod views;
