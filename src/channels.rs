//! Status-byte ranges of the channel voice messages that carry notes.
//! The high nibble names the message type, the low nibble the channel.
use vstd::prelude::*;

verus! {

/// First status byte of a note-off message (channel 0).
pub const CHANNEL_OFF_FIRST: u8 = 0x80;

/// Last status byte of a note-off message (channel 15).
pub const CHANNEL_OFF_LAST: u8 = 0x8F;

/// First status byte of a note-on message (channel 0).
pub const CHANNEL_ON_FIRST: u8 = 0x90;

/// Last status byte of a note-on message (channel 15).
pub const CHANNEL_ON_LAST: u8 = 0x9F;

/// The status byte lies in the note-off range.
pub open spec fn is_note_off_status(b: u8) -> bool {
    0x80 <= b <= 0x8F
}

/// The status byte lies in the note-on range.
pub open spec fn is_note_on_status(b: u8) -> bool {
    0x90 <= b <= 0x9F
}

} // verus!
