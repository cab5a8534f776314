//! Statistics, report text and clipboard text for the files that a
//! repository collector hands back.

pub mod cli;
pub mod collector;
pub mod directories;
pub mod error;
pub mod number;
pub mod publish;
pub mod ranking;
pub mod record;
pub mod report;
pub mod run;
pub mod stats;
pub mod text;

pub use crate::cli::Args;
pub use crate::text::estimate_tokens;
