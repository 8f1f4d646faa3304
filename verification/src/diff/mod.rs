pub mod apply;
pub mod parser;
pub mod types;

pub use types::{DiffFile, DiffHunk, DiffLine, DiffView, HunkDecision, LineKind};
