use dsp_core::controls::DirtyFlags;

#[test]
fn dirty_flags_default_all_false() {
    let flags = DirtyFlags::default();
    assert!(!flags.osc_type);
    assert!(!flags.gain);
    assert!(!flags.attack);
    assert!(!flags.decay);
    assert!(!flags.sustain);
    assert!(!flags.release);
}

#[test]
fn dirty_flags_any_false_when_all_clear() {
    let flags = DirtyFlags::default();
    assert!(!flags.any());
}

#[test]
fn dirty_flags_any_true_when_osc_type_set() {
    let mut flags = DirtyFlags::default();
    flags.osc_type = true;
    assert!(flags.any());
}

#[test]
fn dirty_flags_any_true_when_gain_set() {
    let mut flags = DirtyFlags::default();
    flags.gain = true;
    assert!(flags.any());
}

#[test]
fn dirty_flags_any_true_when_attack_set() {
    let mut flags = DirtyFlags::default();
    flags.attack = true;
    assert!(flags.any());
}

#[test]
fn dirty_flags_any_true_when_decay_set() {
    let mut flags = DirtyFlags::default();
    flags.decay = true;
    assert!(flags.any());
}

#[test]
fn dirty_flags_any_true_when_sustain_set() {
    let mut flags = DirtyFlags::default();
    flags.sustain = true;
    assert!(flags.any());
}

#[test]
fn dirty_flags_any_true_when_release_set() {
    let mut flags = DirtyFlags::default();
    flags.release = true;
    assert!(flags.any());
}

#[test]
fn dirty_flags_any_true_when_all_set() {
    let flags = DirtyFlags {
        osc_type: true,
        gain: true,
        attack: true,
        decay: true,
        sustain: true,
        release: true,
    };
    assert!(flags.any());
}

#[test]
fn dirty_flags_clear_resets_all() {
    let mut flags = DirtyFlags {
        osc_type: true,
        gain: true,
        attack: true,
        decay: true,
        sustain: true,
        release: true,
    };
    flags.clear();
    assert!(!flags.osc_type);
    assert!(!flags.gain);
    assert!(!flags.attack);
    assert!(!flags.decay);
    assert!(!flags.sustain);
    assert!(!flags.release);
    assert!(!flags.any());
}

#[test]
fn dirty_flags_clear_partial() {
    let mut flags = DirtyFlags::default();
    flags.gain = true;
    flags.release = true;
    assert!(flags.any());
    flags.clear();
    assert!(!flags.any());
}
