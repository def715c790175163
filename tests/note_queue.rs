use dsp_core::note_queue::{NoteQueue, NOTE_QUEUE_SIZE};

#[test]
fn test_note_queue_push_on_and_drain() {
    let mut q = NoteQueue::new();
    assert!(q.push_note_on(60));
    let mut events = Vec::new();
    q.drain(|is_on, note| events.push((is_on, note)));
    assert_eq!(events, vec![(true, 60)]);
}

#[test]
fn test_note_queue_push_off_and_drain() {
    let mut q = NoteQueue::new();
    assert!(q.push_note_off(60));
    let mut events = Vec::new();
    q.drain(|is_on, note| events.push((is_on, note)));
    assert_eq!(events, vec![(false, 60)]);
}

#[test]
fn test_note_queue_multiple_events_in_order() {
    let mut q = NoteQueue::new();
    q.push_note_on(60);
    q.push_note_on(64);
    q.push_note_off(60);
    q.push_note_on(67);
    let mut events = Vec::new();
    q.drain(|is_on, note| events.push((is_on, note)));
    assert_eq!(events, vec![(true, 60), (true, 64), (false, 60), (true, 67)]);
}

#[test]
fn test_note_queue_full_returns_false() {
    let mut q = NoteQueue::new();
    // Usable capacity is NOTE_QUEUE_SIZE - 1 = 63
    for i in 0..(NOTE_QUEUE_SIZE - 1) {
        assert!(q.push_note_on(i as u8 % 128), "push {} should succeed", i);
    }
    assert!(!q.push_note_on(0), "push should fail when queue is full");
}

#[test]
fn test_note_queue_empty_drain_no_callback() {
    let mut q = NoteQueue::new();
    let mut called = false;
    q.drain(|_, _| called = true);
    assert!(!called, "empty drain should not invoke callback");
}

#[test]
fn test_note_queue_drain_empties_queue() {
    let mut q = NoteQueue::new();
    for i in 0..5 {
        q.push_note_on(60 + i);
    }
    let mut count1 = 0;
    q.drain(|_, _| count1 += 1);
    assert_eq!(count1, 5);

    // Queue should be empty now, push more
    for i in 0..5 {
        q.push_note_on(70 + i);
    }
    let mut events = Vec::new();
    q.drain(|is_on, note| events.push((is_on, note)));
    assert_eq!(events.len(), 5);
    assert_eq!(events[0], (true, 70));
}

#[test]
fn test_note_on_encoding_sets_high_bit() {
    let mut q = NoteQueue::new();
    q.push_note_on(60);
    let mut events = Vec::new();
    q.drain(|is_on, note| events.push((is_on, note)));
    assert_eq!(events[0], (true, 60));
}

#[test]
fn test_note_off_encoding_clears_high_bit() {
    let mut q = NoteQueue::new();
    q.push_note_off(60);
    let mut events = Vec::new();
    q.drain(|is_on, note| events.push((is_on, note)));
    assert_eq!(events[0], (false, 60));
}

#[test]
fn test_note_queue_wraps_around() {
    let mut q = NoteQueue::new();
    // Push 50, drain all
    for i in 0..50 {
        q.push_note_on(i as u8);
    }
    let mut count = 0;
    q.drain(|_, _| count += 1);
    assert_eq!(count, 50);

    // Push 30 more (these wrap around the 64-slot ring)
    for i in 0..30 {
        assert!(q.push_note_on(80 + i as u8), "wrap push {} failed", i);
    }
    let mut events = Vec::new();
    q.drain(|is_on, note| events.push((is_on, note)));
    assert_eq!(events.len(), 30);
    for (i, &(is_on, note)) in events.iter().enumerate() {
        assert!(is_on);
        assert_eq!(note, 80 + i as u8);
    }
}

#[test]
fn test_note_queue_high_note_values() {
    let mut q = NoteQueue::new();
    // Note 127 with the on bit is the byte 0xFF; the cursors, not the
    // stored bytes, decide what is pending.
    q.push_note_on(127);
    let mut events = Vec::new();
    q.drain(|is_on, note| events.push((is_on, note)));
    assert_eq!(events, vec![(true, 127)]);

    q.push_note_off(127);
    let mut events = Vec::new();
    q.drain(|is_on, note| events.push((is_on, note)));
    assert_eq!(events, vec![(false, 127)]);

    // Note 0
    q.push_note_on(0);
    let mut events = Vec::new();
    q.drain(|is_on, note| events.push((is_on, note)));
    assert_eq!(events, vec![(true, 0)]);
}

#[test]
fn small_queue_keeps_order_across_wrap_and_refuses_when_full() {
    let mut q = NoteQueue::with_capacity(4);
    assert!(q.push_note_on(1));
    assert!(q.push_note_on(2));
    assert!(q.push_note_off(1));
    // Three of four slots are usable.
    assert!(!q.push_note_on(3));
    assert_eq!(q.pop(), Some((true, 1)));
    assert!(q.push_note_on(3));
    assert!(!q.push_note_on(4));
    let mut events = Vec::new();
    q.drain(|is_on, note| events.push((is_on, note)));
    assert_eq!(events, vec![(true, 2), (false, 1), (true, 3)]);
    assert!(q.is_empty());
    assert_eq!(q.pop(), None);
}

#[test]
fn full_queue_refusal_keeps_contents() {
    let mut q = NoteQueue::with_capacity(3);
    assert!(q.push_note_on(10));
    assert!(q.push_note_off(11));
    assert!(!q.push_note_on(12));
    assert!(!q.push_note_off(13));
    assert_eq!(q.pop(), Some((true, 10)));
    assert_eq!(q.pop(), Some((false, 11)));
    assert_eq!(q.pop(), None);
}

#[test]
fn notes_above_127_keep_their_low_seven_bits() {
    let mut q = NoteQueue::new();
    q.push_note_on(200);
    q.push_note_off(128);
    assert_eq!(q.pop(), Some((true, 72)));
    assert_eq!(q.pop(), Some((false, 0)));
}

#[test]
fn single_slot_queue_is_always_full() {
    let mut q = NoteQueue::with_capacity(1);
    assert!(!q.push_note_on(60));
    assert!(q.is_empty());
}
