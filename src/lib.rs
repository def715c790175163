//! Audio core of a monophonic synthesizer: the ADSR envelope and the voice
//! that gates it, the bounded note-event queue from the control side to the
//! audio side, the double buffer that carries rendered samples to a monitor,
//! sample-accurate event scheduling within a block, and the note logic of the
//! on-screen keyboard.
pub mod controls;
pub mod envelope;
pub mod keyboard;
pub mod note_queue;
pub mod params;
pub mod schedule;
pub mod vis_buffer;
pub mod visualizer;
pub mod voice;
