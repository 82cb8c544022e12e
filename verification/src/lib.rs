//! The rules of the Buzz desktop app that do not need a desktop: how it recovers
//! from a renderer that will not start, and how it prepares text for speech.

pub mod render_recovery;
pub mod text;
pub mod voice;
