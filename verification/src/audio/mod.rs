//! Audio data: WAV containers and sample conversion for playback.

pub mod wav;
