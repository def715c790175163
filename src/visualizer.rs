//! Display modes of the sample monitor.
use vstd::prelude::*;

verus! {

/// Number of samples per spectrum frame.
pub const FFT_SIZE: usize = 1024;

/// How the monitor shows the latest samples.
#[derive(Debug, Clone, Copy, PartialEq, Eq, Structural)]
pub enum VisMode {
    Oscilloscope,
    Spectrum,
}

} // verus!
