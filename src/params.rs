use vstd::prelude::*;

verus! {

/// Waveform shapes the oscillator can produce.
#[derive(Debug, Clone, Copy, PartialEq, Eq, Structural)]
pub enum OscillatorType {
    Sine,
    Triangle,
    Square,
    Saw,
}

/// The variant that `from_index(i)` selects: `i` counted in declaration
/// order, with every index past the last variant meaning the last variant.
pub open spec fn variant_at(index: nat) -> OscillatorType {
    if index == 0 {
        OscillatorType::Sine
    } else if index == 1 {
        OscillatorType::Triangle
    } else if index == 2 {
        OscillatorType::Square
    } else {
        OscillatorType::Saw
    }
}

/// The display name of a variant, identical to its identifier.
pub open spec fn name_of(t: OscillatorType) -> Seq<char> {
    match t {
        OscillatorType::Sine => seq!['S', 'i', 'n', 'e'],
        OscillatorType::Triangle => seq!['T', 'r', 'i', 'a', 'n', 'g', 'l', 'e'],
        OscillatorType::Square => seq!['S', 'q', 'u', 'a', 'r', 'e'],
        OscillatorType::Saw => seq!['S', 'a', 'w'],
    }
}

impl OscillatorType {
    /// All variants, in declaration order.
    pub const VARIANTS: [OscillatorType; 4] = [
        OscillatorType::Sine,
        OscillatorType::Triangle,
        OscillatorType::Square,
        OscillatorType::Saw,
    ];

    pub fn name(&self) -> (r: &'static str)
        ensures
            r@ == name_of(*self),
    {
        match self {
            OscillatorType::Sine => {
                proof {
                    reveal_strlit("Sine");
                }
                "Sine"
            },
            OscillatorType::Triangle => {
                proof {
                    reveal_strlit("Triangle");
                }
                "Triangle"
            },
            OscillatorType::Square => {
                proof {
                    reveal_strlit("Square");
                }
                "Square"
            },
            OscillatorType::Saw => {
                proof {
                    reveal_strlit("Saw");
                }
                "Saw"
            },
        }
    }

    /// Selects a variant by index; out-of-range indices clamp to the last one.
    pub fn from_index(index: usize) -> (r: OscillatorType)
        ensures
            r == variant_at(index as nat),
    {
        if index == 0 {
            OscillatorType::Sine
        } else if index == 1 {
            OscillatorType::Triangle
        } else if index == 2 {
            OscillatorType::Square
        } else {
            OscillatorType::Saw
        }
    }
}

} // verus!
