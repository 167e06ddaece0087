//! Extraction of timed note events from a decoded MIDI track, and the
//! schedule on which they are replayed against a MIDI output.
pub mod channels;
pub mod extract;
pub mod message;
pub mod note;
pub mod playback;
pub mod port;
