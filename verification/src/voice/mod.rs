//! Speech synthesis.

pub mod pocket;
