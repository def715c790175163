//! The monophonic voice: which note is sounding and its envelope.
//!
//! The last note-on wins; a note-off releases the envelope only when it names
//! the note that is sounding, so a late note-off from a superseded note is
//! ignored. While the envelope is idle the voice produces nothing and nothing
//! advances.
use vstd::prelude::*;
use crate::envelope::{Envelope, EnvelopeModel, initial_envelope};

verus! {

pub struct VoiceModel {
    pub envelope: EnvelopeModel,
    pub current_note: Option<u8>,
}

pub struct Voice {
    envelope: Envelope,
    current_note: Option<u8>,
}

impl View for Voice {
    type V = VoiceModel;

    closed spec fn view(&self) -> VoiceModel {
        VoiceModel { envelope: self.envelope@, current_note: self.current_note }
    }
}

impl Voice {
    /// A silent voice whose envelope has the default settings.
    pub fn new() -> (v: Voice)
        ensures
            v@.envelope.wf(),
            v@.envelope == initial_envelope(),
            v@.current_note == None::<u8>,
    {
        Voice { envelope: Envelope::new(), current_note: None }
    }

    /// Sets the sample rate of the envelope.
    pub fn prepare(&mut self, sample_rate: u32)
        requires
            old(self)@.envelope.wf(),
            sample_rate >= 1,
        ensures
            final(self)@.envelope.wf(),
            final(self)@.current_note == old(self)@.current_note,
            final(self)@.envelope == old(self)@.envelope.with_sample_rate(sample_rate as nat),
    {
        self.envelope.set_sample_rate(sample_rate);
    }

    pub fn set_attack(&mut self, micros: u32)
        requires
            old(self)@.envelope.wf(),
        ensures
            final(self)@.envelope.wf(),
            final(self)@.current_note == old(self)@.current_note,
            final(self)@.envelope == old(self)@.envelope.with_attack(micros as nat),
    {
        self.envelope.set_attack(micros);
    }

    pub fn set_decay(&mut self, micros: u32)
        requires
            old(self)@.envelope.wf(),
        ensures
            final(self)@.envelope.wf(),
            final(self)@.current_note == old(self)@.current_note,
            final(self)@.envelope == old(self)@.envelope.with_decay(micros as nat),
    {
        self.envelope.set_decay(micros);
    }

    pub fn set_sustain(&mut self, level: u64)
        requires
            old(self)@.envelope.wf(),
        ensures
            final(self)@.envelope.wf(),
            final(self)@.current_note == old(self)@.current_note,
            final(self)@.envelope == old(self)@.envelope.with_sustain(level as nat),
    {
        self.envelope.set_sustain(level);
    }

    pub fn set_release(&mut self, micros: u32)
        requires
            old(self)@.envelope.wf(),
        ensures
            final(self)@.envelope.wf(),
            final(self)@.current_note == old(self)@.current_note,
            final(self)@.envelope == old(self)@.envelope.with_release(micros as nat),
    {
        self.envelope.set_release(micros);
    }

    /// Makes `note` the sounding note and (re)starts the attack.
    pub fn note_on(&mut self, note: u8)
        requires
            old(self)@.envelope.wf(),
        ensures
            final(self)@.envelope.wf(),
            final(self)@ == (VoiceModel {
                envelope: old(self)@.envelope.triggered(),
                current_note: Some(note),
            }),
    {
        self.current_note = Some(note);
        self.envelope.note_on();
    }

    /// Releases the envelope if `note` is the sounding note; otherwise does nothing.
    pub fn note_off(&mut self, note: u8)
        requires
            old(self)@.envelope.wf(),
        ensures
            final(self)@.envelope.wf(),
            old(self)@.current_note == Some(note) ==> final(self)@ == (VoiceModel {
                envelope: old(self)@.envelope.released(),
                current_note: None,
            }),
            old(self)@.current_note != Some(note) ==> final(self)@ == old(self)@,
    {
        if self.current_note == Some(note) {
            self.envelope.note_off();
            self.current_note = None;
        }
    }

    pub fn is_active(&self) -> (r: bool)
        ensures
            r == self@.envelope.is_active(),
    {
        self.envelope.is_active()
    }

    /// The envelope level for the next sample, advancing the envelope, or
    /// None, with nothing advanced, while the envelope is idle.
    pub fn next_level(&mut self) -> (r: Option<u64>)
        requires
            old(self)@.envelope.wf(),
        ensures
            final(self)@.envelope.wf(),
            final(self)@.current_note == old(self)@.current_note,
            !old(self)@.envelope.is_active() ==> r == None::<u64> && final(self)@ == old(self)@,
            old(self)@.envelope.is_active() ==> final(self)@.envelope
                == old(self)@.envelope.ticked() && r == Some(
                final(self)@.envelope.level as u64,
            ),
    {
        if self.envelope.is_active() {
            Some(self.envelope.tick())
        } else {
            None
        }
    }
}

} // verus!
