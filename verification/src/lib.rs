//! A toolkit of callable file and job operations: whole-file text mutation,
//! bounded codebase inspection, subprocess job planning and log assembly, and
//! a keyed context store. Every operation validates its arguments and returns
//! either a payload or one typed error.

pub mod analyzer;
pub mod context;
pub mod context_workflow;
pub mod dispatch;
pub mod errors;
pub mod fs_tools;
pub mod job;
pub mod lines;
pub mod model_selector;
pub mod paths;
pub mod strutil;
pub mod text_edit;

pub use errors::FileToolError;
