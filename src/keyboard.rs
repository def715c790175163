//! Note logic of the on-screen piano keyboard: which computer keys play which
//! notes, which keys are black, and the note events a mouse gesture produces.
use vstd::prelude::*;

verus! {

/// Lowest note of the keyboard at octave offset zero (C3).
pub const FIRST_NOTE: u8 = 48;

/// White keys drawn: two octaves and one more (C3 to D5).
pub const NUM_WHITE_KEYS: usize = 15;

/// Semitones drawn: two octaves and one more (C3 to C5).
pub const NUM_KEYS: u8 = 25;

/// Highest first note an octave shift can reach, keeping every note a valid
/// MIDI note.
pub const MAX_FIRST_NOTE: u8 = 103;

/// Computer keys (by their letter) and the semitone offset from the
/// keyboard's first note that each one plays.
pub const KEY_MAP: [(char, u8); 15] = [
    ('A', 0),
    ('W', 1),
    ('S', 2),
    ('E', 3),
    ('D', 4),
    ('F', 5),
    ('T', 6),
    ('G', 7),
    ('Y', 8),
    ('H', 9),
    ('U', 10),
    ('J', 11),
    ('K', 12),
    ('O', 13),
    ('L', 14),
];

/// Label printed on the piano key at each semitone offset: the letter of the
/// computer key that plays it.
pub const KEY_LABELS: [&'static str; 15] = [
    "A", "W", "S", "E", "D", "F", "T", "G", "Y", "H", "U", "J", "K", "O", "L",
];

/// A note event produced by the keyboard.
#[derive(Debug, Clone, Copy, PartialEq, Eq, Structural)]
pub enum KeyboardEvent {
    NoteOn(u8),
    NoteOff(u8),
}

/// Whether the semitone `s` above a C is a black key.
pub open spec fn black_semitone(s: nat) -> bool {
    let p = s % 12;
    p == 1 || p == 3 || p == 6 || p == 8 || p == 10
}

/// The label of the key for `note` when the keyboard starts at `first_note`,
/// if a computer key plays it.
pub fn key_label_for_note(note: u8, first_note: u8) -> (r: Option<&'static str>)
    ensures
        note >= first_note && note - first_note < KEY_LABELS.len() ==> r == Some(
            KEY_LABELS[note - first_note],
        ),
        !(note >= first_note && note - first_note < KEY_LABELS.len()) ==> r == None::<
            &'static str,
        >,
{
    if note < first_note {
        return None;
    }
    let offset = (note - first_note) as usize;
    if offset < KEY_LABELS.len() {
        Some(KEY_LABELS[offset])
    } else {
        None
    }
}

/// First note of the keyboard shifted by `octave_offset` octaves, clamped so
/// that the keyboard stays within the MIDI range.
pub fn effective_first_note(octave_offset: i8) -> (r: u8)
    ensures
        r == if FIRST_NOTE + 12 * octave_offset < 0 {
            0
        } else if FIRST_NOTE + 12 * octave_offset > MAX_FIRST_NOTE {
            MAX_FIRST_NOTE as int
        } else {
            FIRST_NOTE + 12 * octave_offset
        },
{
    let n: i16 = FIRST_NOTE as i16 + octave_offset as i16 * 12;
    if n < 0 {
        0
    } else if n > MAX_FIRST_NOTE as i16 {
        MAX_FIRST_NOTE
    } else {
        n as u8
    }
}

/// Whether the key `semitone` steps above the keyboard's first note (a C) is black.
pub fn is_black_key(semitone: u8) -> (r: bool)
    ensures
        r == black_semitone(semitone as nat),
{
    let p = semitone % 12;
    p == 1 || p == 3 || p == 6 || p == 8 || p == 10
}

/// Whether `KEY_MAP` maps `key` to `note` on a keyboard starting at `first_note`.
pub open spec fn key_plays(key: char, first_note: u8, note: u8) -> bool {
    exists|i: int|
        0 <= i < KEY_MAP.len() && (#[trigger] KEY_MAP[i]).0 == key && note == first_note
            + KEY_MAP[i].1
}

/// Whether `KEY_MAP` has an entry for `key`.
pub open spec fn key_mapped(key: char) -> bool {
    exists|i: int| 0 <= i < KEY_MAP.len() && (#[trigger] KEY_MAP[i]).0 == key
}

/// The note that the computer key `key` plays when the keyboard starts at
/// `first_note`, if it is mapped.
pub fn note_for_key(key: char, first_note: u8) -> (r: Option<u8>)
    requires
        first_note <= u8::MAX - 14,
    ensures
        r.is_none() <==> !key_mapped(key),
        r matches Some(n) ==> key_plays(key, first_note, n),
{
    let mut i: usize = 0;
    while i < KEY_MAP.len()
        invariant
            i <= KEY_MAP.len(),
            first_note <= u8::MAX - 14,
            forall|j: int| 0 <= j < i ==> KEY_MAP[j].0 != key,
        decreases KEY_MAP.len() - i,
    {
        let (k, offset) = KEY_MAP[i];
        if k == key {
            assert(offset <= 14);
            return Some(first_note + offset);
        }
        i = i + 1;
    }
    None
}

/// The event, if any, for a computer key going down (`pressed`) or up; key
/// repeats and unmapped keys produce none.
pub fn key_event(key: char, pressed: bool, repeat: bool, first_note: u8) -> (r: Option<
    KeyboardEvent,
>)
    requires
        first_note <= u8::MAX - 14,
    ensures
        r.is_none() <==> (repeat || !key_mapped(key)),
        r matches Some(KeyboardEvent::NoteOn(n)) ==> pressed && key_plays(key, first_note, n),
        r matches Some(KeyboardEvent::NoteOff(n)) ==> !pressed && key_plays(key, first_note, n),
{
    if repeat {
        return None;
    }
    match note_for_key(key, first_note) {
        Some(n) => if pressed {
            Some(KeyboardEvent::NoteOn(n))
        } else {
            Some(KeyboardEvent::NoteOff(n))
        },
        None => None,
    }
}

/// The events of a mouse gesture on the keyboard. `pointer_down` tells whether
/// the button is held; `hovered` is the key under the pointer, if any.
/// Moving onto another key releases the old note and plays the new one;
/// letting go releases the held note. `mouse_note` tracks the held note.
pub fn mouse_events(mouse_note: &mut Option<u8>, pointer_down: bool, hovered: Option<u8>) -> (r:
    Vec<KeyboardEvent>)
    ensures
        pointer_down && hovered.is_some() && *old(mouse_note) != hovered ==> {
            &&& *final(mouse_note) == hovered
            &&& r@ == match *old(mouse_note) {
                Some(old_note) => seq![
                    KeyboardEvent::NoteOff(old_note),
                    KeyboardEvent::NoteOn(hovered.unwrap()),
                ],
                None => seq![KeyboardEvent::NoteOn(hovered.unwrap())],
            }
        },
        pointer_down && (hovered.is_none() || *old(mouse_note) == hovered) ==> *final(mouse_note)
            == *old(mouse_note) && r@.len() == 0,
        !pointer_down ==> *final(mouse_note) == None::<u8> && r@ == match *old(mouse_note) {
            Some(old_note) => seq![KeyboardEvent::NoteOff(old_note)],
            None => Seq::<KeyboardEvent>::empty(),
        },
{
    let mut events: Vec<KeyboardEvent> = Vec::new();
    if pointer_down {
        if let Some(note) = hovered {
            if *mouse_note != Some(note) {
                if let Some(old_note) = *mouse_note {
                    events.push(KeyboardEvent::NoteOff(old_note));
                }
                *mouse_note = Some(note);
                events.push(KeyboardEvent::NoteOn(note));
            }
        }
    } else if let Some(note) = *mouse_note {
        *mouse_note = None;
        events.push(KeyboardEvent::NoteOff(note));
    }
    events
}

/// `s` with every occurrence of `n` removed, order kept.
pub open spec fn without(s: Seq<u8>, n: u8) -> Seq<u8> {
    s.filter(|x: u8| x != n)
}

/// Updates the notes held on the keyboard for `event` and tells whether the
/// event goes on to the engine. A note-on for a note already held is dropped;
/// any other note-on is added. A note-off always goes on and removes the note.
pub fn track_held_note(held: &mut Vec<u8>, event: KeyboardEvent) -> (forward: bool)
    ensures
        match event {
            KeyboardEvent::NoteOn(n) => if old(held)@.contains(n) {
                !forward && final(held)@ == old(held)@
            } else {
                forward && final(held)@ == old(held)@.push(n)
            },
            KeyboardEvent::NoteOff(n) => forward && final(held)@ == without(old(held)@, n),
        },
{
    match event {
        KeyboardEvent::NoteOn(note) => {
            let mut i: usize = 0;
            while i < held.len()
                invariant
                    event == KeyboardEvent::NoteOn(note),
                    held@ == old(held)@,
                    i <= held@.len(),
                    forall|j: int| 0 <= j < i ==> held@[j] != note,
                decreases held@.len() - i,
            {
                if held[i] == note {
                    proof {
                        assert(held@[i as int] == note);
                        assert(old(held)@.contains(note));
                    }
                    return false;
                }
                i = i + 1;
            }
            assert(!held@.contains(note));
            held.push(note);
            true
        },
        KeyboardEvent::NoteOff(note) => {
            let ghost before = held@;
            let mut kept: Vec<u8> = Vec::new();
            let mut i: usize = 0;
            while i < held.len()
                invariant
                    held@ == before,
                    i <= before.len(),
                    kept@ == without(before.take(i as int), note),
                decreases before.len() - i,
            {
                let x = held[i];
                proof {
                    reveal(Seq::filter);
                    assert(before.take(i + 1).drop_last() =~= before.take(i as int));
                    assert(before.take(i + 1).last() == x);
                }
                if x != note {
                    kept.push(x);
                }
                i = i + 1;
            }
            assert(before.take(before.len() as int) =~= before);
            *held = kept;
            true
        },
    }
}

} // verus!
