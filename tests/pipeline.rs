use midi_replay::channels::{CHANNEL_OFF_FIRST, CHANNEL_OFF_LAST, CHANNEL_ON_FIRST, CHANNEL_ON_LAST};
use midi_replay::extract::{messages_are_extractable, notes_in_channel, MidiNote};
use midi_replay::message::{midi_messages_from, Event, TimedMidiMessage, TrackEvent};
use midi_replay::note::ChannelNote;
use midi_replay::playback::{notes_are_playable, play_step, playback_schedule};
use midi_replay::port::{parse_port_choice, port_from_trimmed, select_port, PortError, PortSelection};

fn msg(vtime: u64, data: &[u8]) -> TimedMidiMessage {
    TimedMidiMessage { vtime, data: data.to_vec() }
}

fn midi(vtime: u64, data: &[u8]) -> TrackEvent {
    TrackEvent { vtime, event: Event::Midi(data.to_vec()) }
}

fn meta(vtime: u64) -> TrackEvent {
    TrackEvent { vtime, event: Event::Meta }
}

fn note(channel_note: ChannelNote, time: u64, vtime: u64, note: u8, velocity: u8) -> MidiNote {
    MidiNote { channel_note, time, vtime, note, velocity }
}

#[test]
fn classification_of_every_status_byte() {
    for b in 0u16..=255 {
        let b = b as u8;
        let expected = if (0x80..=0x8F).contains(&b) {
            Some(ChannelNote::Off(b))
        } else if (0x90..=0x9F).contains(&b) {
            Some(ChannelNote::On(b))
        } else {
            None
        };
        assert_eq!(ChannelNote::new(b), expected);
    }
}

#[test]
fn classification_range_edges() {
    assert_eq!(ChannelNote::new(0x7F), None);
    assert_eq!(ChannelNote::new(CHANNEL_OFF_FIRST), Some(ChannelNote::Off(0x80)));
    assert_eq!(ChannelNote::new(CHANNEL_OFF_LAST), Some(ChannelNote::Off(0x8F)));
    assert_eq!(ChannelNote::new(CHANNEL_ON_FIRST), Some(ChannelNote::On(0x90)));
    assert_eq!(ChannelNote::new(CHANNEL_ON_LAST), Some(ChannelNote::On(0x9F)));
    assert_eq!(ChannelNote::new(0xA0), None);
    assert_eq!(ChannelNote::new(0xB0), None);
    assert_eq!(ChannelNote::On(0x93).status(), 0x93);
    assert_eq!(ChannelNote::Off(0x8A).status(), 0x8A);
}

#[test]
fn flatten_drops_meta_events_and_keeps_order() {
    let events = vec![
        meta(7),
        midi(10, &[0x90, 60, 100]),
        meta(3),
        midi(5, &[0x80, 60, 100]),
        midi(0, &[0xB0, 7, 40]),
    ];
    let out = midi_messages_from(events);
    assert_eq!(out.len(), 3);
    assert_eq!((out[0].vtime, out[0].data.clone()), (10, vec![0x90, 60, 100]));
    assert_eq!((out[1].vtime, out[1].data.clone()), (5, vec![0x80, 60, 100]));
    assert_eq!((out[2].vtime, out[2].data.clone()), (0, vec![0xB0, 7, 40]));
}

#[test]
fn flatten_empty_and_meta_only() {
    assert!(midi_messages_from(Vec::new()).is_empty());
    assert!(midi_messages_from(vec![meta(1), meta(2)]).is_empty());
}

#[test]
fn extract_example_sequence() {
    let msgs = vec![msg(10, &[0x90, 60, 100]), msg(5, &[0x80, 60, 100]), msg(0, &[0xB0, 7, 40])];
    assert!(messages_are_extractable(&msgs));
    let notes = notes_in_channel(msgs);
    assert_eq!(
        notes,
        vec![
            note(ChannelNote::On(0x90), 10, 10, 60, 100),
            note(ChannelNote::Off(0x80), 15, 5, 60, 100),
        ]
    );
}

#[test]
fn extract_counts_delta_of_discarded_messages() {
    let msgs = vec![
        msg(10, &[0x90, 60, 100]),
        msg(7, &[0xB0, 7, 40]),
        msg(5, &[0x80, 60, 100]),
        msg(4, &[0xC0, 3]),
        msg(0, &[0x91, 64, 90]),
    ];
    let notes = notes_in_channel(msgs);
    assert_eq!(
        notes,
        vec![
            note(ChannelNote::On(0x90), 10, 10, 60, 100),
            note(ChannelNote::Off(0x80), 22, 5, 60, 100),
            note(ChannelNote::On(0x91), 26, 0, 64, 90),
        ]
    );
}

#[test]
fn extract_times_never_decrease() {
    let msgs: Vec<TimedMidiMessage> =
        (0..50u64).map(|i| msg(i % 4, &[if i % 3 == 0 { 0xB0 } else { 0x90 }, 60, 1])).collect();
    let notes = notes_in_channel(msgs);
    assert!(notes.windows(2).all(|w| w[0].time <= w[1].time));
    let mut sum = 0u64;
    let mut k = 0usize;
    for i in 0..50u64 {
        sum += i % 4;
        if i % 3 != 0 {
            assert_eq!(notes[k].time, sum);
            k += 1;
        }
    }
    assert_eq!(k, notes.len());
}

#[test]
fn extract_empty() {
    assert!(messages_are_extractable(&Vec::new()));
    assert!(notes_in_channel(Vec::new()).is_empty());
}

#[test]
fn extractable_rejects_short_and_overflowing_input() {
    assert!(!messages_are_extractable(&vec![msg(0, &[])]));
    assert!(!messages_are_extractable(&vec![msg(0, &[0x90, 60])]));
    assert!(messages_are_extractable(&vec![msg(0, &[0xC0, 3])]));
    assert!(!messages_are_extractable(&vec![msg(u64::MAX, &[0xB0, 1, 1]), msg(1, &[0xB0, 1, 1])]));
    assert!(messages_are_extractable(&vec![msg(u64::MAX - 1, &[0xB0, 1, 1]), msg(1, &[0xB0, 1, 1])]));
}

#[test]
fn pipeline_twice_gives_same_notes() {
    let events = vec![
        meta(2),
        midi(10, &[0x90, 60, 100]),
        midi(3, &[0xB0, 7, 40]),
        meta(9),
        midi(5, &[0x80, 60, 100]),
    ];
    let first = notes_in_channel(midi_messages_from(events.clone()));
    let second = notes_in_channel(midi_messages_from(events));
    assert_eq!(first, second);
    assert_eq!(first[1].time, 18);
}

#[test]
fn play_step_waits_twice_the_delta() {
    let s = play_step(&note(ChannelNote::On(0x92), 10, 10, 60, 100));
    assert_eq!(s.delay_ms, 20);
    assert_eq!(s.message, vec![0x92, 60, 100]);
    let s = play_step(&note(ChannelNote::Off(0x82), 15, 5, 61, 0));
    assert_eq!(s.delay_ms, 10);
    assert_eq!(s.message, vec![0x82, 61, 0]);
}

#[test]
fn schedule_gap_between_sends() {
    let notes = vec![
        note(ChannelNote::On(0x90), 10, 10, 60, 100),
        note(ChannelNote::Off(0x80), 15, 5, 60, 100),
    ];
    assert!(notes_are_playable(&notes));
    let steps = playback_schedule(&notes);
    assert_eq!(steps.len(), 2);
    assert_eq!(steps[0].delay_ms, 20);
    assert_eq!(steps[1].delay_ms, 10);
    assert_eq!(steps[0].message, vec![0x90, 60, 100]);
    assert_eq!(steps[1].message, vec![0x80, 60, 100]);
}

#[test]
fn playable_bound_on_delta() {
    assert!(notes_are_playable(&vec![note(ChannelNote::On(0x90), 0, u64::MAX / 2, 1, 1)]));
    assert!(!notes_are_playable(&vec![note(ChannelNote::On(0x90), 0, u64::MAX / 2 + 1, 1, 1)]));
    assert!(playback_schedule(&Vec::new()).is_empty());
}

#[test]
fn port_selection_by_count() {
    assert_eq!(select_port(0), Err(PortError::NoOutputPort));
    assert_eq!(select_port(1), Ok(PortSelection::Only(0)));
    assert_eq!(select_port(2), Ok(PortSelection::Prompt));
    assert_eq!(select_port(17), Ok(PortSelection::Prompt));
}

#[test]
fn port_choice_parsing() {
    assert_eq!(parse_port_choice("1\n"), Ok(1));
    assert_eq!(parse_port_choice("  12 \r\n"), Ok(12));
    assert_eq!(parse_port_choice("+3"), Ok(3));
    assert_eq!(parse_port_choice("007"), Ok(7));
    assert_eq!(parse_port_choice("x"), Err(PortError::InvalidSelection));
    assert_eq!(parse_port_choice("\n"), Err(PortError::InvalidSelection));
    assert_eq!(parse_port_choice("-1"), Err(PortError::InvalidSelection));
    assert_eq!(parse_port_choice("1 2"), Err(PortError::InvalidSelection));
    assert_eq!(parse_port_choice("99999999999999999999999"), Err(PortError::InvalidSelection));
}

#[test]
fn port_choice_from_trimmed_text() {
    assert_eq!(port_from_trimmed("4"), Ok(4));
    assert_eq!(port_from_trimmed(" 4"), Err(PortError::InvalidSelection));
    assert_eq!(port_from_trimmed("+"), Err(PortError::InvalidSelection));
    assert_eq!(port_from_trimmed(""), Err(PortError::InvalidSelection));
}
