//! Word-level text transforms selected by a two-valued selector, with a
//! whitespace-delimited word count.
pub mod args;
pub mod config;
pub mod data;
pub mod task;
pub mod text;

pub use args::{Args, ArgsError};
pub use config::Config;
pub use data::Data;
pub use task::Task;
