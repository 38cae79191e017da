//! Human-readable rendering of proposed updates.
pub mod color;
pub mod diff;
pub mod text;

pub use color::{new_line, old_line};
pub use diff::{FileDiff, Hunk, LineChange};
pub use text::render;
