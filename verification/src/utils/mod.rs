//! Small helpers on texts.

pub mod text;
