//! An in-memory registry of media-processing jobs.
//!
//! Every job moves through a small lifecycle (queued, processing, then
//! completed or failed). The registry hands out copies of its records and
//! changes them only through the lifecycle transitions.

pub mod commands;
pub mod drive;
pub mod error;
pub mod ident;
pub mod laws;
pub mod manager;
pub mod media;
pub mod model;
pub mod pipeline;
pub mod status;
pub mod task;
pub mod timestamp;

pub use drive::{ProcessEvent, ProcessStep};
pub use error::TaskError;
pub use manager::TaskManager;
pub use status::TaskStatus;
pub use task::{Task, TaskView};
pub use timestamp::Timestamp;
