use dsp_core::keyboard::{
    effective_first_note, is_black_key, key_event, key_label_for_note, mouse_events,
    note_for_key, track_held_note, KeyboardEvent, FIRST_NOTE, KEY_LABELS, KEY_MAP, NUM_KEYS, NUM_WHITE_KEYS,
};

#[test]
fn first_note_is_c3() {
    // MIDI note 48 = C3
    assert_eq!(FIRST_NOTE, 48);
}

#[test]
fn num_white_keys_is_15() {
    // Two octaves of white keys (7 + 7) plus one extra (D5) = 15
    assert_eq!(NUM_WHITE_KEYS, 15);
}

#[test]
fn key_map_has_15_entries() {
    assert_eq!(KEY_MAP.len(), 15);
}

#[test]
fn key_map_offsets_are_sequential() {
    for (i, &(_, offset)) in KEY_MAP.iter().enumerate() {
        assert_eq!(
            offset, i as u8,
            "KEY_MAP entry {} has offset {}, expected {}",
            i, offset, i
        );
    }
}

#[test]
fn key_map_has_no_duplicate_keys() {
    let mut seen = std::collections::HashSet::new();
    for &(key, _) in KEY_MAP.iter() {
        assert!(seen.insert(key), "Duplicate keyboard key in KEY_MAP: {:?}", key);
    }
}

#[test]
fn key_map_has_no_duplicate_offsets() {
    let mut seen = std::collections::HashSet::new();
    for &(_, offset) in KEY_MAP.iter() {
        assert!(seen.insert(offset), "Duplicate offset in KEY_MAP: {}", offset);
    }
}

#[test]
fn key_map_midi_notes_are_valid() {
    for &(_, offset) in KEY_MAP.iter() {
        let note = FIRST_NOTE + offset;
        assert!(note <= 127, "MIDI note {} exceeds 127", note);
    }
}

#[test]
fn black_keys_match_music_theory() {
    let mut black = 0;
    for semitone in 0..NUM_KEYS {
        let expected_black = matches!(semitone % 12, 1 | 3 | 6 | 8 | 10);
        assert_eq!(is_black_key(semitone), expected_black, "semitone {}", semitone);
        if expected_black {
            black += 1;
        }
    }
    assert_eq!(black, 10);
    assert_eq!(NUM_KEYS as usize - black, NUM_WHITE_KEYS);
}

#[test]
fn key_labels_follow_key_map() {
    for (i, &(key, _)) in KEY_MAP.iter().enumerate() {
        assert_eq!(KEY_LABELS[i], key.to_string());
    }
}

#[test]
fn key_label_for_note_in_and_out_of_range() {
    assert_eq!(key_label_for_note(48, 48), Some("A"));
    assert_eq!(key_label_for_note(49, 48), Some("W"));
    assert_eq!(key_label_for_note(62, 48), Some("L"));
    assert_eq!(key_label_for_note(63, 48), None);
    assert_eq!(key_label_for_note(47, 48), None);
    assert_eq!(key_label_for_note(0, 0), Some("A"));
}

#[test]
fn effective_first_note_shifts_and_clamps() {
    assert_eq!(effective_first_note(0), 48);
    assert_eq!(effective_first_note(1), 60);
    assert_eq!(effective_first_note(-1), 36);
    assert_eq!(effective_first_note(-4), 0);
    assert_eq!(effective_first_note(-5), 0);
    assert_eq!(effective_first_note(4), 96);
    assert_eq!(effective_first_note(5), 103);
    assert_eq!(effective_first_note(i8::MAX), 103);
    assert_eq!(effective_first_note(i8::MIN), 0);
}

#[test]
fn note_for_key_maps_letters() {
    assert_eq!(note_for_key('A', 48), Some(48));
    assert_eq!(note_for_key('W', 48), Some(49));
    assert_eq!(note_for_key('L', 48), Some(62));
    assert_eq!(note_for_key('K', 60), Some(72));
    assert_eq!(note_for_key('Z', 48), None);
    assert_eq!(note_for_key('a', 48), None);
}

#[test]
fn key_event_press_release_and_repeat() {
    assert_eq!(key_event('A', true, false, 48), Some(KeyboardEvent::NoteOn(48)));
    assert_eq!(key_event('J', false, false, 48), Some(KeyboardEvent::NoteOff(59)));
    assert_eq!(key_event('A', true, true, 48), None);
    assert_eq!(key_event('Q', true, false, 48), None);
}

#[test]
fn mouse_press_plays_and_release_stops() {
    let mut held = None;
    let ev = mouse_events(&mut held, true, Some(60));
    assert_eq!(ev, vec![KeyboardEvent::NoteOn(60)]);
    assert_eq!(held, Some(60));

    // Staying on the same key produces nothing.
    let ev = mouse_events(&mut held, true, Some(60));
    assert!(ev.is_empty());

    // Sliding to another key releases the old note first.
    let ev = mouse_events(&mut held, true, Some(62));
    assert_eq!(ev, vec![KeyboardEvent::NoteOff(60), KeyboardEvent::NoteOn(62)]);
    assert_eq!(held, Some(62));

    // Pointer held off the keys keeps the note.
    let ev = mouse_events(&mut held, true, None);
    assert!(ev.is_empty());
    assert_eq!(held, Some(62));

    // Letting go releases it.
    let ev = mouse_events(&mut held, false, None);
    assert_eq!(ev, vec![KeyboardEvent::NoteOff(62)]);
    assert_eq!(held, None);

    // Nothing held, nothing to release.
    let ev = mouse_events(&mut held, false, Some(64));
    assert!(ev.is_empty());
    assert_eq!(held, None);
}

#[test]
fn held_notes_drop_repeated_note_on() {
    let mut held = Vec::new();
    assert!(track_held_note(&mut held, KeyboardEvent::NoteOn(60)));
    assert!(track_held_note(&mut held, KeyboardEvent::NoteOn(64)));
    assert!(!track_held_note(&mut held, KeyboardEvent::NoteOn(60)));
    assert_eq!(held, vec![60, 64]);
}

#[test]
fn held_notes_note_off_always_forwards_and_removes() {
    let mut held = vec![60, 64, 60, 67];
    assert!(track_held_note(&mut held, KeyboardEvent::NoteOff(60)));
    assert_eq!(held, vec![64, 67]);
    assert!(track_held_note(&mut held, KeyboardEvent::NoteOff(72)));
    assert_eq!(held, vec![64, 67]);
    assert!(track_held_note(&mut held, KeyboardEvent::NoteOff(64)));
    assert!(track_held_note(&mut held, KeyboardEvent::NoteOff(67)));
    assert!(held.is_empty());
}
