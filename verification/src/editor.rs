//! The state behind the interactive editor.

pub mod window;
