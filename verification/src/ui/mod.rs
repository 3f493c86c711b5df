//! Output: the markup renderer, colour preferences, and the inline picker's frames.

pub mod errors;
pub mod markup;
pub mod output;
pub mod picker;
pub mod prompt;
