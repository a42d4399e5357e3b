//! Layout and rendering core of a source-code formatter.

pub mod intermediary;
pub mod laws;
pub mod line_tokens;
pub mod render_queue_writer;
pub mod render_targets;
