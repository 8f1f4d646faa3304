pub mod buffer;
pub mod history;
pub mod wrap;
