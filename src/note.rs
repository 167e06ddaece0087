//! Classification of a status byte as a note-on or a note-off.
use vstd::prelude::*;

use crate::channels::{
    is_note_off_status, is_note_on_status, CHANNEL_OFF_FIRST, CHANNEL_OFF_LAST, CHANNEL_ON_FIRST,
    CHANNEL_ON_LAST,
};

verus! {

/// A note message, holding the status byte it was read from
/// (message type in the high nibble, channel in the low nibble).
#[derive(Debug, Clone, Copy, PartialEq, Eq, Structural)]
pub enum ChannelNote {
    On(u8),
    Off(u8),
}

/// What a status byte denotes: a note-off, a note-on, or no note at all.
pub open spec fn classify(status: u8) -> Option<ChannelNote> {
    if is_note_off_status(status) {
        Some(ChannelNote::Off(status))
    } else if is_note_on_status(status) {
        Some(ChannelNote::On(status))
    } else {
        None
    }
}

impl ChannelNote {
    /// Classifies a status byte; any byte outside the two note ranges gives `None`.
    pub fn new(channel: u8) -> (r: Option<ChannelNote>)
        ensures
            r == classify(channel),
    {
        if channel >= CHANNEL_OFF_FIRST && channel <= CHANNEL_OFF_LAST {
            Some(ChannelNote::Off(channel))
        } else if channel >= CHANNEL_ON_FIRST && channel <= CHANNEL_ON_LAST {
            Some(ChannelNote::On(channel))
        } else {
            None
        }
    }

    /// The status byte this note message was read from.
    pub fn status(&self) -> (r: u8)
        ensures
            r == self.status_spec(),
    {
        match self {
            ChannelNote::On(c) => *c,
            ChannelNote::Off(c) => *c,
        }
    }

    pub open spec fn status_spec(&self) -> u8 {
        match self {
            ChannelNote::On(c) => *c,
            ChannelNote::Off(c) => *c,
        }
    }
}

/// Every status byte is a note-on, a note-off or neither, and never both;
/// a classified byte keeps its value.
pub proof fn classification_is_total_and_exclusive(status: u8)
    ensures
        !(is_note_on_status(status) && is_note_off_status(status)),
        is_note_off_status(status) <==> classify(status) == Some(ChannelNote::Off(status)),
        is_note_on_status(status) <==> classify(status) == Some(ChannelNote::On(status)),
        (!is_note_on_status(status) && !is_note_off_status(status)) <==> classify(status).is_none(),
        classify(status) matches Some(c) ==> c.status_spec() == status,
{
}

} // verus!
