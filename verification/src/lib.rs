//! Markdown-to-PDF rendering core: the text transformations applied to a
//! document before typesetting, the command-line settings, the dry-run view,
//! the run planner and the per-file render reports.

pub mod cli;
pub mod render;
pub mod report;
pub mod run;
pub mod template;
pub mod text;
pub mod typeset;
