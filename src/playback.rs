//! The schedule on which note events are replayed: before each event, a wait
//! of twice its delta time in milliseconds, then one message.
use vstd::prelude::*;

use crate::extract::MidiNote;

verus! {

/// One step of playback: wait `delay_ms` milliseconds, then send `message`.
#[derive(Debug, Clone)]
pub struct PlayStep {
    pub delay_ms: u64,
    pub message: Vec<u8>,
}

/// The wire bytes of a note event: its status byte, note number and velocity.
pub open spec fn note_bytes(n: MidiNote) -> Seq<u8> {
    seq![n.channel_note.status_spec(), n.note, n.velocity]
}

/// The wait before a note event, in milliseconds.
pub open spec fn delay_of(n: MidiNote) -> int {
    2 * n.vtime
}

/// Each note's wait fits in a `u64` count of milliseconds.
pub open spec fn playable(notes: Seq<MidiNote>) -> bool {
    forall|i: int| 0 <= i < notes.len() ==> delay_of(#[trigger] notes[i]) <= u64::MAX
}

/// Milliseconds from the start of playback until the `k`-th message is sent,
/// counting the waits only.
pub open spec fn send_time(notes: Seq<MidiNote>, k: int) -> int
    decreases k + 1,
{
    if k < 0 {
        0
    } else {
        send_time(notes, k - 1) + delay_of(notes[k])
    }
}

/// Between two consecutive sends the player waits exactly twice the delta
/// time of the later event, counted from the earlier send and not from the
/// start of playback.
pub proof fn send_gap_is_twice_delta(notes: Seq<MidiNote>, k: int)
    requires
        1 <= k < notes.len(),
    ensures
        send_time(notes, k) - send_time(notes, k - 1) == 2 * notes[k].vtime,
        send_time(notes, 0) == 2 * notes[0].vtime,
{
    assert(send_time(notes, -1) == 0);
}

/// The step that plays one note event.
pub fn play_step(note: &MidiNote) -> (r: PlayStep)
    requires
        delay_of(*note) <= u64::MAX,
    ensures
        r.delay_ms == delay_of(*note),
        r.message@ == note_bytes(*note),
{
    let message = vec![note.channel_note.status(), note.note, note.velocity];
    proof {
        assert(message@ =~= note_bytes(*note));
    }
    PlayStep { delay_ms: note.vtime * 2, message }
}

/// Checks that `notes` can be handed to `playback_schedule`.
pub fn notes_are_playable(notes: &Vec<MidiNote>) -> (r: bool)
    ensures
        r == playable(notes@),
{
    let mut i: usize = 0;
    while i < notes.len()
        invariant
            0 <= i <= notes.len(),
            forall|j: int| 0 <= j < i ==> delay_of(#[trigger] notes@[j]) <= u64::MAX,
        decreases notes.len() - i,
    {
        if notes[i].vtime > u64::MAX / 2 {
            return false;
        }
        i = i + 1;
    }
    true
}

/// The steps that replay `notes`, one for each, in order.
pub fn playback_schedule(notes: &Vec<MidiNote>) -> (r: Vec<PlayStep>)
    requires
        playable(notes@),
    ensures
        r.len() == notes.len(),
        forall|k: int|
            0 <= k < r.len() ==> (#[trigger] r[k]).delay_ms == delay_of(notes@[k])
                && r[k].message@ == note_bytes(notes@[k]),
{
    let mut steps: Vec<PlayStep> = Vec::new();
    let mut i: usize = 0;
    while i < notes.len()
        invariant
            playable(notes@),
            0 <= i <= notes.len(),
            steps.len() == i,
            forall|k: int|
                0 <= k < i ==> (#[trigger] steps[k]).delay_ms == delay_of(notes@[k])
                    && steps[k].message@ == note_bytes(notes@[k]),
        decreases notes.len() - i,
    {
        proof {
            assert(delay_of(notes@[i as int]) <= u64::MAX);
        }
        let step = play_step(&notes[i]);
        steps.push(step);
        i = i + 1;
    }
    steps
}

} // verus!
