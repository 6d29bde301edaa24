//! The two-valued signal type and its NAND operation.

use vstd::prelude::*;

verus! {

/// A single digital signal: high (`Positive`) or low (`Negative`).
#[derive(Clone, Copy, Debug, PartialEq, Eq, Structural)]
pub enum Bit {
    Positive,
    Negative,
}

impl Bit {
    /// The boolean a signal stands for: `Positive` is true, `Negative` is false.
    pub open spec fn as_bool(self) -> bool {
        self is Positive
    }

    /// Negative-AND, the sole primitive gate: low exactly when both inputs are high.
    pub fn nand(&self, another: Bit) -> (r: Bit)
        ensures
            r.as_bool() == !(self.as_bool() && another.as_bool()),
    {
        match self {
            Self::Positive => match another {
                Self::Positive => Self::Negative,
                Self::Negative => Self::Positive,
            },
            Self::Negative => Self::Positive,
        }
    }
}

/// A signal type of its own for the `Pin`-flavoured gates.
#[derive(Clone, Copy, Debug, PartialEq, Eq, Structural)]
pub enum Pin {
    Positive,
    Negative,
}

impl Pin {
    /// The boolean a pin stands for: `Positive` is true, `Negative` is false.
    pub open spec fn as_bool(self) -> bool {
        self is Positive
    }

    /// Negative-AND over pins: low exactly when both inputs are high.
    pub fn nand(&self, another: Pin) -> (r: Pin)
        ensures
            r.as_bool() == !(self.as_bool() && another.as_bool()),
    {
        match self {
            Self::Positive => match another {
                Self::Positive => Self::Negative,
                Self::Negative => Self::Positive,
            },
            Self::Negative => Self::Positive,
        }
    }
}

} // verus!
