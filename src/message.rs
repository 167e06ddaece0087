//! Decoded track events, and the flattening of a track into its channel
//! messages.
use vstd::prelude::*;

verus! {

/// The payload of a decoded track event.
#[derive(Debug, Clone)]
pub enum Event {
    /// A channel message: status byte, then its data bytes.
    Midi(Vec<u8>),
    /// A meta event (tempo, track name, ...), which has no wire form.
    Meta,
}

/// An event of a decoded track: a payload after `vtime` ticks since the
/// previous event.
#[derive(Debug, Clone)]
pub struct TrackEvent {
    pub vtime: u64,
    pub event: Event,
}

/// A channel message with its delta time.
#[derive(Debug, Clone)]
pub struct TimedMidiMessage {
    pub vtime: u64,
    pub data: Vec<u8>,
}

/// The value of a `TimedMidiMessage`: its delta time and its bytes.
pub struct TimedMessageView {
    pub vtime: u64,
    pub data: Seq<u8>,
}

impl View for TimedMidiMessage {
    type V = TimedMessageView;

    open spec fn view(&self) -> TimedMessageView {
        TimedMessageView { vtime: self.vtime, data: self.data@ }
    }
}

/// The values of a sequence of messages.
pub open spec fn message_views(msgs: Seq<TimedMidiMessage>) -> Seq<TimedMessageView> {
    msgs.map_values(|m: TimedMidiMessage| m@)
}

/// The channel message a track event carries, with its delta time, if any.
pub open spec fn channel_message(e: TrackEvent) -> Option<TimedMessageView> {
    match e.event {
        Event::Midi(data) => Some(TimedMessageView { vtime: e.vtime, data: data@ }),
        Event::Meta => None,
    }
}

/// The channel messages of a track, in order; meta events are dropped
/// together with their delta times.
pub open spec fn flatten(evs: Seq<TrackEvent>) -> Seq<TimedMessageView>
    decreases evs.len(),
{
    if evs.len() == 0 {
        Seq::empty()
    } else {
        let rest = flatten(evs.drop_last());
        match channel_message(evs.last()) {
            Some(m) => rest.push(m),
            None => rest,
        }
    }
}

/// The positions in `evs` of the events that `flatten` keeps, in order.
pub open spec fn channel_positions(evs: Seq<TrackEvent>) -> Seq<int>
    decreases evs.len(),
{
    if evs.len() == 0 {
        Seq::empty()
    } else {
        let rest = channel_positions(evs.drop_last());
        match channel_message(evs.last()) {
            Some(_) => rest.push(evs.len() - 1),
            None => rest,
        }
    }
}

/// Flattening never lengthens a track, and each message it yields is the
/// channel message of an input event, the positions of these events strictly
/// increasing: the relative order of the input is kept.
pub proof fn flatten_keeps_channel_messages_in_order(evs: Seq<TrackEvent>)
    ensures
        flatten(evs).len() <= evs.len(),
        channel_positions(evs).len() == flatten(evs).len(),
        forall|k: int|
            0 <= k < flatten(evs).len() ==> {
                let p = #[trigger] channel_positions(evs)[k];
                &&& 0 <= p < evs.len()
                &&& channel_message(evs[p]) == Some(flatten(evs)[k])
            },
        forall|j: int, k: int|
            0 <= j < k < flatten(evs).len() ==> channel_positions(evs)[j]
                < channel_positions(evs)[k],
        forall|i: int|
            0 <= i < evs.len() && (#[trigger] channel_message(evs[i])).is_some() ==> exists|k: int|
                0 <= k < flatten(evs).len() && channel_positions(evs)[k] == i,
    decreases evs.len(),
{
    if evs.len() > 0 {
        let init = evs.drop_last();
        flatten_keeps_channel_messages_in_order(init);
        assert forall|i: int|
            0 <= i < evs.len() && (#[trigger] channel_message(evs[i])).is_some() implies exists|
                k: int,
            |
                0 <= k < flatten(evs).len() && channel_positions(evs)[k] == i by {
            if i < evs.len() - 1 {
                assert(evs[i] == init[i]);
                assert(channel_message(init[i]).is_some());
                let k = choose|k: int|
                    0 <= k < flatten(init).len() && channel_positions(init)[k] == i;
                assert(channel_positions(evs)[k] == i);
            } else {
                assert(channel_positions(evs)[flatten(evs).len() - 1] == i);
            }
        }
    }
}

/// Keeps the channel messages of a track, in order, and drops its meta events.
pub fn midi_messages_from(track_events: Vec<TrackEvent>) -> (r: Vec<TimedMidiMessage>)
    ensures
        message_views(r@) == flatten(track_events@),
{
    let mut midi_messages: Vec<TimedMidiMessage> = Vec::new();
    let n = track_events.len();
    let mut i: usize = 0;
    while i < n
        invariant
            n == track_events.len(),
            0 <= i <= n,
            message_views(midi_messages@) == flatten(track_events@.take(i as int)),
        decreases n - i,
    {
        let te = &track_events[i];
        proof {
            assert(track_events@.take(i + 1).drop_last() =~= track_events@.take(i as int));
        }
        match &te.event {
            Event::Midi(data) => {
                midi_messages.push(TimedMidiMessage { vtime: te.vtime, data: data.clone() });
                proof {
                    assert(message_views(midi_messages@) =~= flatten(
                        track_events@.take(i + 1),
                    ));
                }
            },
            Event::Meta => {},
        }
        i = i + 1;
    }
    proof {
        assert(track_events@.take(n as int) =~= track_events@);
    }
    midi_messages
}

} // verus!
