//! Small helpers.

pub mod maybe_boxed;
