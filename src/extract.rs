//! Extraction of note events, with their absolute times, from a sequence of
//! channel messages.
use vstd::prelude::*;

use crate::message::{
    channel_message, flatten, message_views, TimedMessageView, TimedMidiMessage, TrackEvent,
};
use crate::note::{classify, ChannelNote};

verus! {

/// A note-on or note-off at `time` ticks from the start of the track,
/// `vtime` ticks after the message before it.
#[derive(Debug, Clone, Copy, PartialEq, Eq, Structural)]
pub struct MidiNote {
    pub channel_note: ChannelNote,
    pub time: u64,
    pub vtime: u64,
    pub note: u8,
    pub velocity: u8,
}

/// The sum of the delta times of `msgs`.
pub open spec fn delta_total(msgs: Seq<TimedMessageView>) -> int
    decreases msgs.len(),
{
    if msgs.len() == 0 {
        0
    } else {
        delta_total(msgs.drop_last()) + msgs.last().vtime
    }
}

/// The messages can be read as notes: each has a status byte, each note
/// message has its two data bytes, and the running time fits in a `u64`.
pub open spec fn extractable(msgs: Seq<TimedMessageView>) -> bool {
    &&& delta_total(msgs) <= u64::MAX
    &&& forall|i: int|
        0 <= i < msgs.len() ==> {
            &&& (#[trigger] msgs[i]).data.len() >= 1
            &&& classify(msgs[i].data[0]).is_some() ==> msgs[i].data.len() >= 3
        }
}

/// The note events of `msgs`: one for each message whose status byte is a
/// note-on or a note-off, at the running sum of the delta times of all
/// messages up to and including it.
pub open spec fn extract(msgs: Seq<TimedMessageView>) -> Seq<MidiNote>
    decreases msgs.len(),
{
    if msgs.len() == 0 {
        Seq::empty()
    } else {
        let rest = extract(msgs.drop_last());
        let m = msgs.last();
        match classify(m.data[0]) {
            Some(cn) => rest.push(
                MidiNote {
                    channel_note: cn,
                    time: delta_total(msgs) as u64,
                    vtime: m.vtime,
                    note: m.data[1],
                    velocity: m.data[2],
                },
            ),
            None => rest,
        }
    }
}

/// The positions in `msgs` of the messages that `extract` keeps, in order.
pub open spec fn note_positions(msgs: Seq<TimedMessageView>) -> Seq<int>
    decreases msgs.len(),
{
    if msgs.len() == 0 {
        Seq::empty()
    } else {
        let rest = note_positions(msgs.drop_last());
        match classify(msgs.last().data[0]) {
            Some(_) => rest.push(msgs.len() - 1),
            None => rest,
        }
    }
}

proof fn lemma_delta_total_prefix(msgs: Seq<TimedMessageView>, i: int)
    requires
        0 <= i <= msgs.len(),
    ensures
        0 <= delta_total(msgs.take(i)) <= delta_total(msgs),
    decreases msgs.len(),
{
    if msgs.len() > 0 {
        if i == msgs.len() {
            assert(msgs.take(i) =~= msgs);
            lemma_delta_total_prefix(msgs.drop_last(), i - 1);
            assert(msgs.drop_last().take(i - 1) =~= msgs.drop_last());
        } else {
            lemma_delta_total_prefix(msgs.drop_last(), i);
            assert(msgs.drop_last().take(i) =~= msgs.take(i));
        }
    }
}

/// Each extracted note comes from a note message of the input, at positions
/// that strictly increase, and carries the sum of the delta times of every
/// input message up to and including its own, non-note messages counted;
/// so the absolute times never decrease. Every note message of the input
/// yields a note.
pub proof fn extracted_times_are_prefix_sums(msgs: Seq<TimedMessageView>)
    requires
        extractable(msgs),
    ensures
        extract(msgs).len() <= msgs.len(),
        note_positions(msgs).len() == extract(msgs).len(),
        forall|k: int|
            0 <= k < extract(msgs).len() ==> {
                let p = #[trigger] note_positions(msgs)[k];
                let m = msgs[p];
                &&& 0 <= p < msgs.len()
                &&& classify(m.data[0]) == Some(extract(msgs)[k].channel_note)
                &&& extract(msgs)[k].time as int == delta_total(msgs.take(p + 1))
                &&& extract(msgs)[k].vtime == m.vtime
                &&& extract(msgs)[k].note == m.data[1]
                &&& extract(msgs)[k].velocity == m.data[2]
            },
        forall|j: int, k: int|
            0 <= j < k < extract(msgs).len() ==> note_positions(msgs)[j] < note_positions(msgs)[k]
                && extract(msgs)[j].time <= extract(msgs)[k].time,
        forall|i: int|
            0 <= i < msgs.len() && (#[trigger] classify(msgs[i].data[0])).is_some() ==> exists|
                k: int,
            | 0 <= k < extract(msgs).len() && note_positions(msgs)[k] == i,
    decreases msgs.len(),
{
    if msgs.len() > 0 {
        let init = msgs.drop_last();
        let n = msgs.len() as int;
        lemma_delta_total_prefix(msgs, n - 1);
        assert(msgs.take(n - 1) =~= init);
        assert(msgs.take(n) =~= msgs);
        assert(extractable(init)) by {
            assert forall|i: int| 0 <= i < init.len() implies {
                &&& (#[trigger] init[i]).data.len() >= 1
                &&& classify(init[i].data[0]).is_some() ==> init[i].data.len() >= 3
            } by {
                assert(init[i] == msgs[i]);
            }
        }
        extracted_times_are_prefix_sums(init);
        let out = extract(msgs);
        let pos = note_positions(msgs);
        assert forall|k: int| 0 <= k < extract(init).len() implies {
            &&& pos[k] == note_positions(init)[k]
            &&& out[k] == extract(init)[k]
            &&& msgs.take(pos[k] + 1) =~= init.take(pos[k] + 1)
        } by {}
        assert forall|k: int| 0 <= k < out.len() implies out[k].time as int <= delta_total(msgs) by {
            if k < extract(init).len() {
                let p = note_positions(init)[k];
                lemma_delta_total_prefix(init, p + 1);
            }
        }
        assert forall|i: int|
            0 <= i < msgs.len() && (#[trigger] classify(msgs[i].data[0])).is_some() implies exists|
                k: int,
            | 0 <= k < out.len() && pos[k] == i by {
            if i < n - 1 {
                assert(msgs[i] == init[i]);
                assert(classify(init[i].data[0]).is_some());
                let k = choose|k: int|
                    0 <= k < extract(init).len() && note_positions(init)[k] == i;
                assert(pos[k] == i);
            } else {
                assert(pos[out.len() - 1] == i);
            }
        }
    }
}

/// Runs flattening and extraction on two decoded tracks of equal content:
/// the note events are the same, whatever the tracks' identities.
pub proof fn pipeline_is_deterministic(a: Seq<TrackEvent>, b: Seq<TrackEvent>)
    requires
        a.len() == b.len(),
        forall|i: int| 0 <= i < a.len() ==> channel_message(a[i]) == channel_message(b[i]),
    ensures
        flatten(a) == flatten(b),
        extract(flatten(a)) == extract(flatten(b)),
    decreases a.len(),
{
    if a.len() > 0 {
        pipeline_is_deterministic(a.drop_last(), b.drop_last());
        assert(channel_message(a[a.len() - 1]) == channel_message(b[b.len() - 1]));
    }
}

/// Checks that `midi_messages` can be handed to `notes_in_channel`.
pub fn messages_are_extractable(midi_messages: &Vec<TimedMidiMessage>) -> (r: bool)
    ensures
        r == extractable(message_views(midi_messages@)),
{
    let ghost views = message_views(midi_messages@);
    let n = midi_messages.len();
    let mut total: u64 = 0;
    let mut i: usize = 0;
    while i < n
        invariant
            n == midi_messages.len(),
            views == message_views(midi_messages@),
            0 <= i <= n,
            total as int == delta_total(views.take(i as int)),
            extractable(views.take(i as int)),
        decreases n - i,
    {
        let msg = &midi_messages[i];
        proof {
            assert(views.take(i + 1).drop_last() =~= views.take(i as int));
            assert(views[i as int] == msg@);
        }
        if msg.data.len() == 0 {
            proof {
                assert(views[i as int].data.len() == 0);
            }
            return false;
        }
        let is_note = ChannelNote::new(msg.data[0]).is_some();
        if is_note && msg.data.len() < 3 {
            return false;
        }
        if msg.vtime > u64::MAX - total {
            proof {
                lemma_delta_total_prefix(views, i + 1);
            }
            return false;
        }
        total = total + msg.vtime;
        i = i + 1;
        proof {
            let t = views.take(i as int);
            assert forall|j: int| 0 <= j < t.len() implies {
                &&& (#[trigger] t[j]).data.len() >= 1
                &&& classify(t[j].data[0]).is_some() ==> t[j].data.len() >= 3
            } by {
                if j < i - 1 {
                    assert(t[j] == views.take(i - 1)[j]);
                }
            }
        }
    }
    proof {
        assert(views.take(n as int) =~= views);
    }
    true
}

/// The note events of `midi_messages`, in order, each at the running sum of
/// the delta times of all messages up to and including its own.
pub fn notes_in_channel(midi_messages: Vec<TimedMidiMessage>) -> (r: Vec<MidiNote>)
    requires
        extractable(message_views(midi_messages@)),
    ensures
        r@ == extract(message_views(midi_messages@)),
{
    let ghost views = message_views(midi_messages@);
    let n = midi_messages.len();
    let mut time: u64 = 0;
    let mut notes: Vec<MidiNote> = Vec::new();
    let mut i: usize = 0;
    while i < n
        invariant
            n == midi_messages.len(),
            views == message_views(midi_messages@),
            extractable(views),
            0 <= i <= n,
            time as int == delta_total(views.take(i as int)),
            notes@ == extract(views.take(i as int)),
        decreases n - i,
    {
        let msg = &midi_messages[i];
        proof {
            assert(views.take(i + 1).drop_last() =~= views.take(i as int));
            assert(views[i as int] == msg@);
            assert(views.take(i + 1).last() == msg@);
            lemma_delta_total_prefix(views, i + 1);
        }
        time = time + msg.vtime;
        if let Some(cn) = ChannelNote::new(msg.data[0]) {
            notes.push(
                MidiNote {
                    channel_note: cn,
                    time: time,
                    vtime: msg.vtime,
                    note: msg.data[1],
                    velocity: msg.data[2],
                },
            );
        }
        i = i + 1;
    }
    proof {
        assert(views.take(n as int) =~= views);
    }
    notes
}

} // verus!
