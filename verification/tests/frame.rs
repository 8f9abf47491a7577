use midi_capture::{CoalescedFrame, MidiEvent};

fn cc(channel: u8, param: u32) -> MidiEvent {
    MidiEvent::Control { channel, param }
}

#[test]
fn a_new_frame_is_empty() {
    let frame = CoalescedFrame::new();
    assert!(frame.is_empty());
    assert_eq!(frame.get(cc(0, 0)), None);
    assert_eq!(frame.entries(), Vec::new());
}

#[test]
fn the_last_write_to_a_key_stays() {
    let mut frame = CoalescedFrame::new();
    assert_eq!(frame.insert(cc(0, 1), 5), None);
    assert_eq!(frame.insert(cc(0, 1), 12), Some(5));
    assert_eq!(frame.insert(cc(0, 1), 9), Some(12));
    assert_eq!(frame.get(cc(0, 1)), Some(9));
    assert!(!frame.is_empty());
    assert_eq!(frame.entries(), vec![(cc(0, 1), 9)]);
}

#[test]
fn a_key_that_was_not_written_is_absent() {
    let mut frame = CoalescedFrame::new();
    frame.insert(cc(0, 1), 0);
    assert_eq!(frame.get(cc(0, 1)), Some(0));
    assert_eq!(frame.get(cc(0, 2)), None);
    assert_eq!(frame.get(cc(1, 1)), None);
}

#[test]
fn messages_that_differ_in_any_part_are_kept_apart() {
    let keys = [
        cc(0, 0),
        cc(0, 1),
        cc(1, 0),
        cc(0, u32::MAX),
        cc(255, u32::MAX),
        cc(0, 1 << 8),
        MidiEvent::NoteOn { channel: 0, note: 0, velocity: 0 },
        MidiEvent::NoteOn { channel: 0, note: 1, velocity: 0 },
        MidiEvent::NoteOn { channel: 0, note: 0, velocity: 1 },
        MidiEvent::NoteOn { channel: 1, note: 0, velocity: 0 },
        MidiEvent::NoteOn { channel: 255, note: 255, velocity: 255 },
        MidiEvent::NoteOff { channel: 0, note: 0, velocity: 0 },
        MidiEvent::NoteOff { channel: 0, note: 1, velocity: 0 },
        MidiEvent::NoteOff { channel: 0, note: 0, velocity: 1 },
        MidiEvent::NoteOff { channel: 1, note: 0, velocity: 0 },
        MidiEvent::NoteOff { channel: 255, note: 255, velocity: 255 },
    ];
    let mut frame = CoalescedFrame::new();
    for (i, key) in keys.iter().enumerate() {
        assert_eq!(frame.insert(*key, i as i32), None);
    }
    for (i, key) in keys.iter().enumerate() {
        assert_eq!(frame.get(*key), Some(i as i32));
    }
    let mut entries = frame.entries();
    assert_eq!(entries.len(), keys.len());
    entries.sort_by_key(|entry| entry.1);
    for (i, key) in keys.iter().enumerate() {
        assert_eq!(entries[i], (*key, i as i32));
    }
}
