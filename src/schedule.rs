//! Sample-accurate scheduling of timed note events within one output block.
//!
//! A block of `num_samples` is rendered in spans: events whose time has come
//! are applied first, then audio is rendered up to the next event's time (or
//! the end of the block). Every step either applies one event or moves the
//! render position forward, so a block takes at most one step per event plus
//! one per span.
use vstd::prelude::*;

verus! {

/// Longest span rendered into the scratch buffer at once.
pub const MAX_CHUNK: usize = 512;

/// What the block loop does next.
#[derive(Debug, Clone, Copy, PartialEq, Eq, Structural)]
pub enum BlockStep {
    /// Apply the pending event now, then ask again.
    ApplyEvent,
    /// Render samples from the current position up to, not including, this one.
    Render(usize),
    /// The block is complete.
    Done,
}

/// The next step at render position `block_start` of a block of `num_samples`,
/// given the time (sample offset in the block) of the next pending event.
pub fn next_step(block_start: usize, num_samples: usize, next_event_time: Option<u32>) -> (r:
    BlockStep)
    ensures
        block_start >= num_samples ==> r == BlockStep::Done,
        block_start < num_samples ==> match next_event_time {
            Some(t) => if t <= block_start {
                r == BlockStep::ApplyEvent
            } else {
                r == BlockStep::Render(if t < num_samples { t as usize } else { num_samples })
            },
            None => r == BlockStep::Render(num_samples),
        },
        r matches BlockStep::Render(end) ==> block_start < end <= num_samples,
{
    if block_start >= num_samples {
        return BlockStep::Done;
    }
    match next_event_time {
        Some(t) => {
            let timing = t as usize;
            if timing <= block_start {
                BlockStep::ApplyEvent
            } else if timing < num_samples {
                BlockStep::Render(timing)
            } else {
                BlockStep::Render(num_samples)
            }
        },
        None => BlockStep::Render(num_samples),
    }
}

/// Length of the next chunk when `remaining` samples of a span are left.
pub fn chunk_len(remaining: usize) -> (r: usize)
    ensures
        r == if remaining < MAX_CHUNK { remaining } else { MAX_CHUNK },
{
    if remaining < MAX_CHUNK {
        remaining
    } else {
        MAX_CHUNK
    }
}

} // verus!
