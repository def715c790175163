use dsp_core::envelope::LEVEL_ONE;
use dsp_core::voice::Voice;

#[test]
fn idle_voice_yields_nothing() {
    let mut v = Voice::new();
    assert!(!v.is_active());
    assert_eq!(v.next_level(), None);
    assert_eq!(v.next_level(), None);
}

#[test]
fn note_on_starts_the_envelope() {
    let mut v = Voice::new();
    v.prepare(44100);
    v.note_on(69);
    assert!(v.is_active());
    let first = v.next_level().unwrap();
    assert!(first > 0 && first < LEVEL_ONE);
}

#[test]
fn wrong_note_off_keeps_playing() {
    let mut v = Voice::new();
    v.note_on(69);
    for _ in 0..256 {
        v.next_level();
    }
    v.note_off(60);
    assert!(v.is_active());
    // Still in attack or decay, not releasing.
    let mut levels = Vec::new();
    for _ in 0..5000 {
        levels.push(v.next_level().unwrap());
    }
    assert!(levels.iter().all(|&l| l > 0));
}

#[test]
fn matching_note_off_releases_to_silence() {
    let mut v = Voice::new();
    v.prepare(44100);
    v.set_release(1000);
    v.note_on(69);
    for _ in 0..4410 {
        v.next_level();
    }
    v.note_off(69);
    assert!(v.is_active());
    let mut count = 0;
    while v.next_level().is_some() {
        count += 1;
    }
    assert!(count <= 45, "release took {}", count);
    assert!(!v.is_active());
}

#[test]
fn superseded_note_off_is_ignored() {
    let mut v = Voice::new();
    v.note_on(60);
    v.note_on(64);
    v.note_off(60);
    assert!(v.is_active());
    for _ in 0..20000 {
        assert!(v.next_level().is_some());
    }
    v.note_off(64);
    let mut count = 0;
    while v.next_level().is_some() {
        count += 1;
    }
    assert!(count <= 13230);
}

#[test]
fn setters_forward_to_the_envelope() {
    let mut v = Voice::new();
    v.prepare(1000);
    v.set_attack(2000); // two ticks at 1 kHz
    v.set_decay(1000);
    v.set_sustain(LEVEL_ONE / 4);
    v.note_on(1);
    assert_eq!(v.next_level(), Some(LEVEL_ONE / 2));
    assert_eq!(v.next_level(), Some(LEVEL_ONE));
    assert_eq!(v.next_level(), Some(LEVEL_ONE / 4));
    assert_eq!(v.next_level(), Some(LEVEL_ONE / 4));
}
