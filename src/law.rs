use vstd::prelude::*;
use crate::pan::{PanPosition, PAN_UNIT};

verus! {

/// The pan laws an engine can apply.
#[derive(Clone, Copy, Debug, PartialEq, Eq, Structural)]
pub enum Options {
    /// `left = 1 - p`, `right = p`.
    Linear,
    /// `left = cos(p * pi / 2)`, `right = sin(p * pi / 2)`.
    ConstantPower,
    /// The -4.5 dB law: the geometric mean of the linear and constant-power
    /// gains.
    Db45,
}

/// The one-byte code a pan law travels as.
pub open spec fn code_of(o: Options) -> u8 {
    match o {
        Options::Linear => 0,
        Options::ConstantPower => 1,
        Options::Db45 => 2,
    }
}

/// The pan law a byte code selects; an unknown code selects the
/// constant-power law.
pub open spec fn option_of_code(c: u8) -> Options {
    if c == 0 {
        Options::Linear
    } else if c == 2 {
        Options::Db45
    } else {
        Options::ConstantPower
    }
}

impl Options {
    /// The byte code of this pan law.
    pub fn code(self) -> (r: u8)
        ensures
            r == code_of(self),
    {
        match self {
            Options::Linear => 0,
            Options::ConstantPower => 1,
            Options::Db45 => 2,
        }
    }

    /// The pan law a byte code selects.
    pub fn from_code(c: u8) -> (r: Options)
        ensures
            r == option_of_code(c),
    {
        if c == 0 {
            Options::Linear
        } else if c == 2 {
            Options::Db45
        } else {
            Options::ConstantPower
        }
    }
}

/// Decoding the code of a pan law gives that pan law back.
pub proof fn lemma_code_round_trip(o: Options)
    ensures
        option_of_code(code_of(o)) == o,
{
}

/// The linear pan law in fixed point: the gains `(left, right)`, in units of
/// `1 / PAN_UNIT`, always add up to unity.
pub fn linear_pan(factor: PanPosition) -> (r: (u32, u32))
    requires
        factor.valid(),
    ensures
        r.0 == PAN_UNIT - factor.raw,
        r.1 == factor.raw,
        r.0 + r.1 == PAN_UNIT,
{
    (PAN_UNIT - factor.raw, factor.raw)
}

} // verus!
